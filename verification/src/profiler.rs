//! Call-count bookkeeping for hot-path detection. The pipeline is
//! single-threaded and synchronous, so counts are plain integers; relaying
//! timing telemetry is a boundary collaborator's part.
use vstd::prelude::*;
use crate::text::str_eq;

verus! {

/// Spec mirror of `FunctionProfile`.
#[verifier::ext_equal]
pub struct FunctionProfileV {
    pub name: Seq<char>,
    pub call_count: u64,
    pub total_time_ns: u64,
}

/// One function's recorded activity.
#[derive(Debug)]
pub struct FunctionProfile {
    pub name: String,
    pub call_count: u64,
    pub total_time_ns: u64,
}

impl View for FunctionProfile {
    type V = FunctionProfileV;

    open spec fn view(&self) -> FunctionProfileV {
        FunctionProfileV {
            name: self.name@,
            call_count: self.call_count,
            total_time_ns: self.total_time_ns,
        }
    }
}

/// Element-wise view of a profile vector.
pub open spec fn view_profile_seq(v: Seq<FunctionProfile>) -> Seq<FunctionProfileV> {
    Seq::new(v.len(), |i: int| v[i]@)
}

/// The profiles meeting the call-count threshold, in recording order.
pub open spec fn spec_hot_filter(ps: Seq<FunctionProfileV>, threshold: u64) -> Seq<
    FunctionProfileV,
>
    decreases ps.len(),
{
    if ps.len() == 0 {
        Seq::empty()
    } else {
        let rest = spec_hot_filter(ps.drop_first(), threshold);
        if ps[0].call_count >= threshold {
            seq![ps[0]] + rest
        } else {
            rest
        }
    }
}

/// Stable insertion into a sequence sorted by descending call count.
pub open spec fn spec_insert_desc(
    sorted: Seq<FunctionProfileV>,
    p: FunctionProfileV,
) -> Seq<FunctionProfileV>
    decreases sorted.len(),
{
    if sorted.len() == 0 {
        seq![p]
    } else if p.call_count > sorted[0].call_count {
        seq![p] + sorted
    } else {
        seq![sorted[0]] + spec_insert_desc(sorted.drop_first(), p)
    }
}

/// Insertion sort by descending call count, stable for equal counts.
pub open spec fn spec_sort_desc(ps: Seq<FunctionProfileV>) -> Seq<FunctionProfileV>
    decreases ps.len(),
{
    if ps.len() == 0 {
        Seq::empty()
    } else {
        spec_insert_desc(spec_sort_desc(ps.drop_last()), ps.last())
    }
}

/// The names of a profile sequence, in order.
pub open spec fn spec_profile_names(ps: Seq<FunctionProfileV>) -> Seq<Seq<char>> {
    Seq::new(ps.len(), |i: int| ps[i].name)
}

/// Registration: the first profile of the name reset in place, else a
/// fresh zeroed profile appended.
pub open spec fn spec_register(ps: Seq<FunctionProfileV>, name: Seq<char>) -> Seq<
    FunctionProfileV,
>
    decreases ps.len(),
{
    let fresh = FunctionProfileV { name, call_count: 0, total_time_ns: 0 };
    if ps.len() == 0 {
        seq![fresh]
    } else if ps[0].name == name {
        seq![fresh] + ps.drop_first()
    } else {
        seq![ps[0]] + spec_register(ps.drop_first(), name)
    }
}

proof fn lemma_register_at(ps: Seq<FunctionProfileV>, name: Seq<char>, i: int)
    requires
        0 <= i < ps.len(),
        ps[i].name == name,
        forall|k: int| 0 <= k < i ==> (#[trigger] ps[k]).name != name,
    ensures
        spec_register(ps, name) == ps.update(
            i,
            FunctionProfileV { name, call_count: 0, total_time_ns: 0 },
        ),
    decreases ps.len(),
{
    let fresh = FunctionProfileV { name, call_count: 0, total_time_ns: 0 };
    if i == 0 {
        assert(seq![fresh] + ps.drop_first() =~= ps.update(0, fresh));
    } else {
        assert forall|k: int| 0 <= k < i - 1 implies (#[trigger] ps.drop_first()[k]).name
            != name by {
            assert(ps.drop_first()[k] == ps[k + 1]);
        }
        assert(ps.drop_first()[i - 1] == ps[i]);
        lemma_register_at(ps.drop_first(), name, i - 1);
        assert(seq![ps[0]] + ps.drop_first().update(i - 1, fresh) =~= ps.update(i, fresh));
    }
}

proof fn lemma_register_missing(ps: Seq<FunctionProfileV>, name: Seq<char>)
    requires
        forall|k: int| 0 <= k < ps.len() ==> (#[trigger] ps[k]).name != name,
    ensures
        spec_register(ps, name) == ps.push(
            FunctionProfileV { name, call_count: 0, total_time_ns: 0 },
        ),
    decreases ps.len(),
{
    let fresh = FunctionProfileV { name, call_count: 0, total_time_ns: 0 };
    if ps.len() == 0 {
        assert(seq![fresh] =~= ps.push(fresh));
    } else {
        assert forall|k: int| 0 <= k < ps.drop_first().len() implies (#[trigger] ps.drop_first()[
            k
        ]).name != name by {
            assert(ps.drop_first()[k] == ps[k + 1]);
        }
        lemma_register_missing(ps.drop_first(), name);
        assert(seq![ps[0]] + ps.drop_first().push(fresh) =~= ps.push(fresh));
    }
}

/// The per-compile profiler state.
pub struct Profiler {
    pub profiles: Vec<FunctionProfile>,
}

impl Profiler {
    pub fn new() -> (r: Profiler)
        ensures
            view_profile_seq(r.profiles@) == Seq::<FunctionProfileV>::empty(),
    {
        let r = Profiler { profiles: Vec::new() };
        proof {
            assert(view_profile_seq(r.profiles@) =~= Seq::<FunctionProfileV>::empty());
        }
        r
    }

    /// Registers a function with a zeroed count. Re-registering a name
    /// resets its first profile in place, so registration never duplicates
    /// a name.
    pub fn register_function(&mut self, name: &str)
        ensures
            view_profile_seq(final(self).profiles@) == spec_register(
                view_profile_seq(old(self).profiles@),
                name@,
            ),
    {
        let ghost pre = view_profile_seq(self.profiles@);
        let ghost fresh = FunctionProfileV { name: name@, call_count: 0, total_time_ns: 0 };
        let n = self.profiles.len();
        let mut i: usize = 0;
        while i < n
            invariant
                i <= n,
                n == self.profiles@.len(),
                *self == *old(self),
                pre == view_profile_seq(self.profiles@),
                fresh == (FunctionProfileV { name: name@, call_count: 0, total_time_ns: 0 }),
                forall|k: int| 0 <= k < i ==> (#[trigger] pre[k]).name != name@,
            decreases n - i,
        {
            if crate::text::str_eq(self.profiles[i].name.as_str(), name) {
                let replacement = FunctionProfile {
                    name: crate::text::str_to_string(name),
                    call_count: 0,
                    total_time_ns: 0,
                };
                let ghost raw_pre = self.profiles@;
                let ghost rv = replacement@;
                self.profiles[i] = replacement;
                proof {
                    lemma_register_at(pre, name@, i as int);
                    assert(rv == fresh);
                    assert forall|k: int| 0 <= k < pre.len() implies view_profile_seq(
                        self.profiles@,
                    )[k] == pre.update(i as int, fresh)[k] by {
                        if k != i {
                            assert(self.profiles@[k] == raw_pre[k]);
                        }
                    }
                    assert(view_profile_seq(self.profiles@) =~= pre.update(i as int, fresh));
                }
                return ;
            }
            i += 1;
        }
        proof {
            lemma_register_missing(pre, name@);
        }
        self.profiles.push(
            FunctionProfile {
                name: crate::text::str_to_string(name),
                call_count: 0,
                total_time_ns: 0,
            },
        );
        proof {
            assert(view_profile_seq(self.profiles@) =~= pre.push(fresh));
        }
    }

    /// Records one call of a registered function; the count saturates
    /// rather than wraps. An unregistered name changes nothing.
    pub fn record_call(&mut self, name: &str)
        ensures
            final(self).profiles@.len() == old(self).profiles@.len(),
            forall|k: int|
                0 <= k < old(self).profiles@.len() && old(self).profiles@[k]@.name != name@
                    ==> final(self).profiles@[k]@ == old(self).profiles@[k]@,
            forall|k: int|
                0 <= k < old(self).profiles@.len() && old(self).profiles@[k]@.name == name@
                    ==> final(self).profiles@[k]@ == (FunctionProfileV {
                    call_count: (if old(self).profiles@[k]@.call_count < u64::MAX {
                        (old(self).profiles@[k]@.call_count + 1) as u64
                    } else {
                        u64::MAX
                    }),
                    ..old(self).profiles@[k]@
                }),
    {
        let n = self.profiles.len();
        let mut i: usize = 0;
        while i < n
            invariant
                i <= n,
                n == self.profiles@.len(),
                old(self).profiles@.len() == n,
                forall|k: int|
                    i <= k < n ==> self.profiles@[k]@ == old(self).profiles@[k]@,
                forall|k: int|
                    0 <= k < i && old(self).profiles@[k]@.name != name@ ==> self.profiles@[k]@
                        == old(self).profiles@[k]@,
                forall|k: int|
                    0 <= k < i && old(self).profiles@[k]@.name == name@ ==> self.profiles@[k]@
                        == (FunctionProfileV {
                        call_count: (if old(self).profiles@[k]@.call_count < u64::MAX {
                            (old(self).profiles@[k]@.call_count + 1) as u64
                        } else {
                            u64::MAX
                        }),
                        ..old(self).profiles@[k]@
                    }),
            decreases n - i,
        {
            if str_eq(self.profiles[i].name.as_str(), name) {
                let c = self.profiles[i].call_count;
                let bumped: u64 = if c < u64::MAX {
                    c + 1
                } else {
                    u64::MAX
                };
                let updated = FunctionProfile {
                    name: self.profiles[i].name.clone(),
                    call_count: bumped,
                    total_time_ns: self.profiles[i].total_time_ns,
                };
                self.profiles[i] = updated;
            }
            i += 1;
        }
    }

    /// The names of the functions called at least `threshold` times, most
    /// frequent first; equal counts keep their recording order.
    pub fn get_hot_functions(&self, threshold: u64) -> (r: Vec<String>)
        ensures
            crate::text::view_string_seq(r@) == spec_profile_names(
                spec_sort_desc(spec_hot_filter(view_profile_seq(self.profiles@), threshold)),
            ),
    {
        let ghost psv = view_profile_seq(self.profiles@);
        let n = self.profiles.len();
        // collect the profiles meeting the threshold, back to front so the
        // filter's front-to-back recursion is mirrored exactly
        let mut filtered: Vec<FunctionProfile> = Vec::new();
        let mut i: usize = n;
        while i > 0
            invariant
                i <= n,
                n == self.profiles@.len(),
                psv == view_profile_seq(self.profiles@),
                view_profile_seq(filtered@) == spec_hot_filter(
                    psv.subrange(i as int, n as int),
                    threshold,
                ),
            decreases i,
        {
            i -= 1;
            let ghost pre = view_profile_seq(filtered@);
            if self.profiles[i].call_count >= threshold {
                let p = &self.profiles[i];
                filtered.insert(
                    0,
                    FunctionProfile {
                        name: p.name.clone(),
                        call_count: p.call_count,
                        total_time_ns: p.total_time_ns,
                    },
                );
                proof {
                    assert(view_profile_seq(filtered@) =~= seq![psv[i as int]] + pre);
                }
            }
            proof {
                let tail = psv.subrange(i as int, n as int);
                assert(tail[0] == psv[i as int]);
                assert(tail.drop_first() =~= psv.subrange(i + 1 as int, n as int));
            }
        }
        proof {
            assert(psv.subrange(0, n as int) =~= psv);
        }
        // insertion sort by descending count, mirroring the spec
        let mut sorted: Vec<FunctionProfile> = Vec::new();
        let fn_len = filtered.len();
        let mut j: usize = 0;
        while j < fn_len
            invariant
                j <= fn_len,
                fn_len == filtered@.len(),
                view_profile_seq(sorted@) == spec_sort_desc(
                    view_profile_seq(filtered@).take(j as int),
                ),
            decreases fn_len - j,
        {
            let p = &filtered[j];
            let item = FunctionProfile {
                name: p.name.clone(),
                call_count: p.call_count,
                total_time_ns: p.total_time_ns,
            };
            proof {
                assert(item@ == view_profile_seq(filtered@)[j as int]);
            }
            let ghost pre = view_profile_seq(sorted@);
            let sn = sorted.len();
            let mut pos: usize = 0;
            while pos < sn && item.call_count <= sorted[pos].call_count
                invariant
                    pos <= sn,
                    sn == sorted@.len(),
                    pre == view_profile_seq(sorted@),
                    forall|k: int|
                        0 <= k < pos ==> item@.call_count <= pre[k].call_count,
                decreases sn - pos,
            {
                pos += 1;
            }
            sorted.insert(pos, item);
            proof {
                lemma_insert_desc_at(pre, item@, pos as int);
                assert(view_profile_seq(sorted@) =~= pre.insert(pos as int, item@));
                assert(view_profile_seq(filtered@).take(j + 1 as int).drop_last() =~=
                view_profile_seq(filtered@).take(j as int));
                assert(view_profile_seq(filtered@).take(j + 1 as int).last() == view_profile_seq(
                    filtered@,
                )[j as int]);
            }
            j += 1;
        }
        proof {
            assert(view_profile_seq(filtered@).take(fn_len as int) =~= view_profile_seq(
                filtered@,
            ));
        }
        // project the names
        let mut out: Vec<String> = Vec::new();
        let sn2 = sorted.len();
        let mut k: usize = 0;
        while k < sn2
            invariant
                k <= sn2,
                sn2 == sorted@.len(),
                crate::text::view_string_seq(out@) == spec_profile_names(
                    view_profile_seq(sorted@),
                ).take(k as int),
            decreases sn2 - k,
        {
            let ghost pre = crate::text::view_string_seq(out@);
            out.push(sorted[k].name.clone());
            proof {
                assert(crate::text::view_string_seq(out@) =~= pre.push(
                    view_profile_seq(sorted@)[k as int].name,
                ));
                assert(pre.push(view_profile_seq(sorted@)[k as int].name) =~= spec_profile_names(
                    view_profile_seq(sorted@),
                ).take(k + 1 as int));
            }
            k += 1;
        }
        proof {
            assert(spec_profile_names(view_profile_seq(sorted@)).take(sn2 as int) =~=
            spec_profile_names(view_profile_seq(sorted@)));
        }
        out
    }
}

/// Inserting before the first strictly smaller count is what the spec's
/// stable descending insertion computes.
proof fn lemma_insert_desc_at(sorted: Seq<FunctionProfileV>, p: FunctionProfileV, pos: int)
    requires
        0 <= pos <= sorted.len(),
        forall|k: int| 0 <= k < pos ==> p.call_count <= sorted[k].call_count,
        pos < sorted.len() ==> p.call_count > sorted[pos].call_count,
    ensures
        spec_insert_desc(sorted, p) == sorted.insert(pos, p),
    decreases sorted.len(),
{
    if sorted.len() == 0 {
        assert(spec_insert_desc(sorted, p) =~= sorted.insert(0, p));
    } else if p.call_count > sorted[0].call_count {
        assert(pos == 0);
        assert(seq![p] + sorted =~= sorted.insert(0, p));
    } else {
        lemma_insert_desc_at(sorted.drop_first(), p, pos - 1);
        assert(seq![sorted[0]] + sorted.drop_first().insert(pos - 1, p) =~= sorted.insert(pos, p));
    }
}

impl Default for Profiler {
    fn default() -> (r: Profiler)
        ensures
            view_profile_seq(r.profiles@) == Seq::<FunctionProfileV>::empty(),
    {
        Profiler::new()
    }
}

} // verus!
