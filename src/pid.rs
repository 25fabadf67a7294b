use vstd::prelude::*;

verus! {

/// The identifier of a thread group leader: a positive 32-bit integer.
#[derive(Clone, Copy, Debug, PartialEq, Eq, Structural, Hash)]
pub struct Pid {
    raw: i32,
}

impl Pid {
    /// The numeric value of the identifier. The type invariant keeps the
    /// field positive, so the second branch is never taken by a `Pid` that
    /// exists; it lets the range be known in specifications too.
    pub closed spec fn value(self) -> int {
        if self.raw > 0 {
            self.raw as int
        } else {
            1
        }
    }

    #[verifier::type_invariant]
    closed spec fn positive(self) -> bool {
        self.raw > 0
    }

    /// The value of a `Pid` is positive and fits in an `i32`.
    pub broadcast proof fn lemma_value_range(p: Pid)
        ensures
            0 < #[trigger] p.value() <= i32::MAX,
    {
    }

    /// Makes a `Pid` of `raw`; there is none for zero or a negative value.
    pub fn from_raw(raw: i32) -> (r: Option<Pid>)
        ensures
            raw > 0 <==> r.is_some(),
            r matches Some(p) ==> p.value() == raw as int,
    {
        if raw > 0 {
            Some(Pid { raw })
        } else {
            None
        }
    }

    /// The identifier as the signed value that system calls take.
    pub fn as_raw(&self) -> (r: i32)
        ensures
            r as int == self.value(),
            r > 0,
    {
        proof {
            use_type_invariant(self);
        }
        self.raw
    }
}

} // verus!
