use vstd::prelude::*;

verus! {

use vstd::string::*;
use crate::orchestrate::Update;

/// The decimal digit character of one value below ten.
pub open spec fn decimal_digit(d: nat) -> char {
    if d == 0 {
        '0'
    } else if d == 1 {
        '1'
    } else if d == 2 {
        '2'
    } else if d == 3 {
        '3'
    } else if d == 4 {
        '4'
    } else if d == 5 {
        '5'
    } else if d == 6 {
        '6'
    } else if d == 7 {
        '7'
    } else if d == 8 {
        '8'
    } else {
        '9'
    }
}

/// The decimal text of a number: its digits, most significant first, with no
/// leading zero except for the number zero itself.
pub open spec fn decimal_rep(n: nat) -> Seq<char>
    decreases n,
{
    if n < 10 {
        seq![decimal_digit(n)]
    } else {
        decimal_rep(n / 10).push(decimal_digit(n % 10))
    }
}

fn push_digit(s: &mut String, d: usize)
    requires
        d < 10,
    ensures
        final(s)@ == old(s)@ + seq![decimal_digit(d as nat)],
{
    proof {
        reveal_strlit("0");
        reveal_strlit("1");
        reveal_strlit("2");
        reveal_strlit("3");
        reveal_strlit("4");
        reveal_strlit("5");
        reveal_strlit("6");
        reveal_strlit("7");
        reveal_strlit("8");
        reveal_strlit("9");
    }
    match d {
        0 => s.append("0"),
        1 => s.append("1"),
        2 => s.append("2"),
        3 => s.append("3"),
        4 => s.append("4"),
        5 => s.append("5"),
        6 => s.append("6"),
        7 => s.append("7"),
        8 => s.append("8"),
        _ => s.append("9"),
    }
    proof {
        assert(s@ =~= old(s)@ + seq![decimal_digit(d as nat)]);
    }
}

fn push_decimal(s: &mut String, n: usize)
    ensures
        final(s)@ == old(s)@ + decimal_rep(n as nat),
    decreases n,
{
    if n >= 10 {
        push_decimal(s, n / 10);
    }
    push_digit(s, n % 10);
    proof {
        assert(s@ =~= old(s)@ + decimal_rep(n as nat));
    }
}

/// The decimal text of `n`.
pub fn decimal_string(n: usize) -> (r: String)
    ensures
        r@ == decimal_rep(n as nat),
{
    let mut s = String::new();
    push_decimal(&mut s, n);
    proof {
        assert(s@ =~= decimal_rep(n as nat));
    }
    s
}

/// The versioned state store: the single current build snapshot, absent until
/// the first successful build. Publishing replaces the whole snapshot at
/// once, so a reader sees either the previous snapshot or the new one in
/// full, never a mix; each reader works on its own copy of the immutable
/// contents.
pub struct Store {
    pub current: Option<Update>,
}

/// The nonce a store answers for change detection: the current snapshot's,
/// or zero when no build ever completed.
pub open spec fn store_nonce(s: Store) -> nat {
    match s.current {
        Some(u) => u.nonce as nat,
        None => 0,
    }
}

impl Store {
    /// A store with no snapshot: nothing was built yet, every read projection
    /// answers absence.
    pub fn new() -> (s: Store)
        ensures
            s.current is None,
            store_nonce(s) == 0,
    {
        Store { current: None }
    }

    /// Atomically replaces the held snapshot with a freshly built one. The
    /// store never holds a mix of old and new parts.
    pub fn publish(&mut self, u: Update)
        ensures
            final(self).current == Some(u),
    {
        self.current = Some(u);
    }

    /// Applies one build cycle's outcome: a fresh snapshot is published; no
    /// outcome — a skipped or failed cycle — leaves the store exactly as it
    /// was, previous snapshot and nonce untouched.
    pub fn apply(&mut self, outcome: Option<Update>)
        ensures
            outcome matches Some(u) ==> final(self).current == Some(u),
            outcome is None ==> *final(self) == *old(self),
    {
        match outcome {
            Some(u) => self.current = Some(u),
            None => (),
        }
    }

    /// The current snapshot, for a reader.
    pub fn current(&self) -> (r: &Option<Update>)
        ensures
            *r == self.current,
    {
        &self.current
    }

    /// The current nonce: zero until the first successful build.
    pub fn nonce(&self) -> (n: usize)
        ensures
            n as nat == store_nonce(*self),
    {
        match &self.current {
            Some(u) => u.nonce,
            None => 0,
        }
    }

    /// The raw binary module of the current snapshot, or absence when no
    /// build ever completed.
    pub fn module(&self) -> (r: Option<Vec<u8>>)
        ensures
            r is Some <==> self.current is Some,
            r matches Some(b) ==> (self.current matches Some(u) && b@ == u.module@),
    {
        match &self.current {
            Some(u) => {
                let b = u.module.clone();
                proof {
                    assert(b@ =~= u.module@);
                }
                Some(b)
            },
            None => None,
        }
    }

    /// The raw loader script of the current snapshot, or absence when no
    /// build ever completed.
    pub fn loader(&self) -> (r: Option<Vec<u8>>)
        ensures
            r is Some <==> self.current is Some,
            r matches Some(b) ==> (self.current matches Some(u) && b@ == u.loader@),
    {
        match &self.current {
            Some(u) => {
                let b = u.loader.clone();
                proof {
                    assert(b@ =~= u.loader@);
                }
                Some(b)
            },
            None => None,
        }
    }

    /// The current nonce as decimal text: `"0"` until the first successful
    /// build, then the published snapshot's version.
    pub fn checksum(&self) -> (r: String)
        ensures
            r@ == decimal_rep(store_nonce(*self)),
    {
        decimal_string(self.nonce())
    }
}

} // verus!
