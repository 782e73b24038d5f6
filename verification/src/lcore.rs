//! Logical-core identifiers and the layout of enabled cores.
//!
//! A logical core is an OS thread pinned to a CPU core, the unit of
//! dispatch for worker tasks.  [`Id`] names one such core.  [`Lcores`]
//! holds the layout the runtime was started with: which core coordinates
//! (the main core) and which cores are enabled; the launch bookkeeping is
//! built on top of it.

use vstd::prelude::*;
use vstd::string::StringExecFns;

use crate::mac_addr::{hex_char_of, hex_str};

verus! {

/// The socket identifier meaning "any NUMA socket".
pub const SOCKET_ID_ANY: i32 = -1;

/// The core number every core-local query answers before core affinity is
/// set up: the native "any lcore" marker.
pub const LCORE_ID_ANY: u32 = 4294967295;

/// The decimal digits of a number, most significant first.
pub open spec fn dec_chars(n: nat) -> Seq<char>
    decreases n,
{
    if n < 10 {
        seq![hex_char_of(n as u8)]
    } else {
        dec_chars(n / 10) + seq![hex_char_of((n % 10) as u8)]
    }
}

/// A number as a decimal string.
fn u32_dec(n: u32) -> (s: String)
    ensures
        s@ == dec_chars(n as nat),
    decreases n,
{
    if n < 10 {
        String::from_str(hex_str(n as u8))
    } else {
        let mut s = u32_dec(n / 10);
        s.append(hex_str((n % 10) as u8));
        s
    }
}

/// A logical-core identifier.
#[derive(Clone, Copy, PartialEq, Eq, Structural, Debug, Hash)]
pub struct Id(u32);

impl Id {
    /// Wraps a raw core number.
    pub fn new(id: u32) -> (r: Id)
        ensures
            r.spec_get() == id,
    {
        Id(id)
    }

    /// The raw core number.
    pub fn get(&self) -> (r: u32)
        ensures
            r == self.spec_get(),
    {
        self.0
    }

    /// The raw core number, in specifications.
    pub closed spec fn spec_get(&self) -> u32 {
        self.0
    }

    /// The textual form of the identifier: the decimal core number, or
    /// "any lcore" for the marker value.
    pub fn to_string(&self) -> (s: String)
        ensures
            self.spec_get() == LCORE_ID_ANY ==> s@ == "any lcore"@,
            self.spec_get() != LCORE_ID_ANY ==> s@ == dec_chars(self.spec_get() as nat),
    {
        if self.0 == LCORE_ID_ANY {
            proof {
                reveal_strlit("any lcore");
            }
            String::from_str("any lcore")
        } else {
            u32_dec(self.0)
        }
    }

    /// Whether this core is the coordinating (main) core of the given
    /// layout.
    pub fn is_main(&self, lcores: &Lcores) -> (r: bool)
        ensures
            r == (self.spec_get() == lcores@.main),
    {
        self.0 == lcores.main
    }

    /// Whether this core is enabled in the given layout.
    pub fn is_enabled(&self, lcores: &Lcores) -> (r: bool)
        ensures
            r == lcores@.enabled.contains(self.spec_get()),
    {
        let n = lcores.enabled.len();
        let mut i: usize = 0;
        while i < n
            invariant
                n == lcores.enabled@.len(),
                i <= n,
                forall|k: int| 0 <= k < i ==> lcores.enabled@[k] != self.spec_get(),
            decreases n - i,
        {
            if lcores.enabled[i] == self.0 {
                return true;
            }
            i = i + 1;
        }
        false
    }
}

/// The raw core numbers of a sequence of identifiers.
pub open spec fn id_values(s: Seq<Id>) -> Seq<u32> {
    s.map_values(|id: Id| id.spec_get())
}

/// The cores of `s` other than `main`, in order.
pub open spec fn non_main(s: Seq<u32>, main: u32) -> Seq<u32> {
    s.filter(|c: u32| c != main)
}

/// The abstract state of a core layout.
pub struct LcoresView {
    /// The coordinating (main) core.
    pub main: u32,
    /// The enabled cores in strictly ascending order, as the native
    /// next-enabled-core enumeration produces them; the main core is among
    /// them.
    pub enabled: Seq<u32>,
}

/// The layout of logical cores the runtime was started with: the main core
/// and the set of enabled cores.
pub struct Lcores {
    main: u32,
    enabled: Vec<u32>,
}

impl View for Lcores {
    type V = LcoresView;

    closed spec fn view(&self) -> LcoresView {
        LcoresView { main: self.main, enabled: self.enabled@ }
    }
}

impl Lcores {
    /// Strictly ascending entries (so no duplicates) and the main core
    /// among them.
    #[verifier::type_invariant]
    closed spec fn wf(self) -> bool {
        &&& self.enabled@.contains(self.main)
        &&& forall|i: int, j: int|
            0 <= i < j < self.enabled@.len() ==> self.enabled@[i] < self.enabled@[j]
    }

    /// Describes a layout with the given main core and enabled cores.
    ///
    /// The main core must be enabled, and the cores must be listed in
    /// strictly ascending order — the order the native next-enabled-core
    /// enumeration walks them in.
    pub fn new(main: Id, enabled: Vec<u32>) -> (r: Lcores)
        requires
            enabled@.contains(main.spec_get()),
            forall|i: int, j: int| 0 <= i < j < enabled@.len() ==> enabled@[i] < enabled@[j],
        ensures
            r@.main == main.spec_get(),
            r@.enabled == enabled@,
    {
        Lcores { main: main.get(), enabled }
    }

    /// The coordinating (main) core.
    pub fn main(&self) -> (r: Id)
        ensures
            r.spec_get() == self@.main,
    {
        Id::new(self.main)
    }

    /// How many cores are enabled.
    pub fn count(&self) -> (n: usize)
        ensures
            n == self@.enabled.len(),
    {
        self.enabled.len()
    }

    /// The enabled cores in strictly ascending order, optionally leaving
    /// the main core out — the worker cores available for dispatch, as the
    /// native next-enabled-core enumeration yields them.
    pub fn iter_enabled(&self, skip_main: bool) -> (r: Vec<Id>)
        ensures
            skip_main ==> id_values(r@) == non_main(self@.enabled, self@.main),
            !skip_main ==> id_values(r@) == self@.enabled,
            forall|a: int, b: int|
                0 <= a < b < r@.len() ==> r@[a].spec_get() < r@[b].spec_get(),
    {
        proof {
            use_type_invariant(self);
        }
        let n = self.enabled.len();
        let mut out: Vec<Id> = Vec::new();
        let mut i: usize = 0;
        while i < n
            invariant
                n == self.enabled@.len(),
                i <= n,
                forall|a: int, b: int| 0 <= a < b < n ==> self.enabled@[a] < self.enabled@[b],
                skip_main ==> id_values(out@) == non_main(
                    self.enabled@.take(i as int),
                    self@.main,
                ),
                !skip_main ==> id_values(out@) == self.enabled@.take(i as int),
                forall|a: int, b: int|
                    0 <= a < b < out@.len() ==> out@[a].spec_get() < out@[b].spec_get(),
                out@.len() > 0 ==> exists|m: int|
                    0 <= m < i && out@.last().spec_get() == self.enabled@[m],
            decreases n - i,
        {
            let c = self.enabled[i];
            let ghost pre = out@;
            if !skip_main || c != self.main {
                proof {
                    if pre.len() > 0 {
                        let m = choose|m: int|
                            0 <= m < i && pre.last().spec_get() == self.enabled@[m];
                        assert(pre.last().spec_get() < c);
                        assert forall|a: int| 0 <= a < pre.len() implies pre[a].spec_get()
                            < c by {
                            if a < pre.len() - 1 {
                                assert(pre[a].spec_get() < pre.last().spec_get());
                            }
                        }
                    }
                }
                out.push(Id::new(c));
                proof {
                    assert(out@.last().spec_get() == self.enabled@[i as int]);
                }
            }
            proof {
                reveal(Seq::filter);
                assert(self.enabled@.take(i + 1).drop_last() =~= self.enabled@.take(i as int));
                assert(self.enabled@.take(i + 1).last() == c);
                if skip_main {
                    if c != self@.main {
                        assert(non_main(self.enabled@.take(i + 1), self@.main) == non_main(
                            self.enabled@.take(i as int),
                            self@.main,
                        ).push(c));
                        assert(id_values(out@) =~= id_values(pre).push(c));
                    } else {
                        assert(non_main(self.enabled@.take(i + 1), self@.main) == non_main(
                            self.enabled@.take(i as int),
                            self@.main,
                        ));
                    }
                    assert(id_values(out@) =~= non_main(self.enabled@.take(i + 1), self@.main));
                } else {
                    assert(id_values(out@) =~= self.enabled@.take(i + 1));
                }
            }
            i = i + 1;
        }
        proof {
            assert(self.enabled@.take(n as int) =~= self.enabled@);
        }
        out
    }
}

} // verus!
