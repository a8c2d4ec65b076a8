//! GPU memory accounting: the bytes committed to textures (uncompressed against block-compressed)
//! and to mesh buffers, and per-label totals of everything the load path creates.
//!
//! The totals are cumulative: they count creations, not the live set. A counter that outgrows
//! 64 bits wraps.

use vstd::prelude::*;
use vstd::string::*;

verus! {

/// How one byte string ranks against another.
#[derive(Clone, Copy, PartialEq, Eq, Structural)]
pub enum Rank {
    Before,
    Same,
    After,
}

/// `a` precedes `b` in dictionary order of bytes: at the first place where they part, `a` has
/// either ended or the smaller byte.
pub open spec fn precedes(a: Seq<u8>, b: Seq<u8>) -> bool {
    exists|k: int| #[trigger] parts_at(a, b, k)
}

pub open spec fn parts_at(a: Seq<u8>, b: Seq<u8>, k: int) -> bool {
    &&& 0 <= k <= a.len()
    &&& k < b.len()
    &&& forall|i: int| 0 <= i < k ==> a[i] == b[i]
    &&& k == a.len() || a[k] < b[k]
}

/// Dictionary order is strict: nothing precedes itself, and no two strings precede each other.
pub proof fn law_precedes_is_strict(a: Seq<u8>, b: Seq<u8>)
    requires
        precedes(a, b),
    ensures
        !precedes(b, a),
        a != b,
{
    let k = choose|k: int| #[trigger] parts_at(a, b, k);
    if precedes(b, a) {
        let j = choose|j: int| #[trigger] parts_at(b, a, j);
        if j < k {
            assert(a[j] == b[j]);
        } else if k < j {
            assert(b[k] == a[k]);
        }
    }
}

/// Dictionary order is transitive.
pub proof fn law_precedes_is_transitive(a: Seq<u8>, b: Seq<u8>, c: Seq<u8>)
    requires
        precedes(a, b),
        precedes(b, c),
    ensures
        precedes(a, c),
{
    let k = choose|k: int| #[trigger] parts_at(a, b, k);
    let j = choose|j: int| #[trigger] parts_at(b, c, j);
    let m = if k < j {
        k
    } else {
        j
    };
    assert forall|i: int| 0 <= i < m implies a[i] == c[i] by {
        assert(a[i] == b[i]);
        assert(b[i] == c[i]);
    }
    if k < j {
        assert(b[k] == c[k]);
    } else if j < k {
        assert(a[j] == b[j]);
    }
    assert(parts_at(a, c, m));
}

/// Rank `a` against `b` in dictionary order of bytes.
fn rank(a: &[u8], b: &[u8]) -> (r: Rank)
    ensures
        r == Rank::Before <==> precedes(a@, b@),
        r == Rank::Same <==> a@ == b@,
        r == Rank::After <==> precedes(b@, a@),
{
    let mut k: usize = 0;
    while k < a.len() && k < b.len() && a[k] == b[k]
        invariant
            k <= a@.len(),
            k <= b@.len(),
            forall|i: int| 0 <= i < k ==> a@[i] == b@[i],
        decreases a@.len() - k,
    {
        k = k + 1;
    }
    if k == a.len() && k == b.len() {
        assert(a@ =~= b@);
        proof {
            if precedes(a@, b@) {
                law_precedes_is_strict(a@, b@);
            }
        }
        Rank::Same
    } else if k == a.len() || (k < b.len() && a[k] < b[k]) {
        proof {
            assert(parts_at(a@, b@, k as int));
            law_precedes_is_strict(a@, b@);
        }
        Rank::Before
    } else {
        proof {
            assert(parts_at(b@, a@, k as int));
            law_precedes_is_strict(b@, a@);
        }
        Rank::After
    }
}

/// The running totals.
pub struct MemProf {
    tex_uncompressed: u64,
    tex_bc: u64,
    buf: u64,
    tex_count: u64,
    mesh_count: u64,
    cats: Vec<(&'static str, u64, u64)>,
}

/// Position of the entry for `name`, if there is one.
spec fn entry_at(cats: Seq<(&'static str, u64, u64)>, name: Seq<char>, i: int) -> bool {
    0 <= i < cats.len() && cats[i].0@ == name
}

/// (count, bytes) of the entry for `name`.
spec fn lookup(cats: Seq<(&'static str, u64, u64)>, name: Seq<char>) -> Option<(u64, u64)> {
    if exists|i: int| entry_at(cats, name, i) {
        let i = choose|i: int| entry_at(cats, name, i);
        Some((cats[i].1, cats[i].2))
    } else {
        None
    }
}

/// Rows in strictly increasing order of their labels' bytes, so that no label occurs twice.
pub open spec fn sorted_by_label(rows: Seq<(&'static str, u64, u64)>) -> bool {
    forall|i: int, j: int|
        0 <= i < j < rows.len() ==> #[trigger] precedes(
            rows[i].0.spec_bytes(),
            rows[j].0.spec_bytes(),
        )
}

impl MemProf {
    /// (uncompressed texture bytes, block-compressed texture bytes, buffer bytes, textures, meshes)
    pub closed spec fn totals(&self) -> (u64, u64, u64, u64, u64) {
        (self.tex_uncompressed, self.tex_bc, self.buf, self.tex_count, self.mesh_count)
    }

    /// (count, bytes) noted so far under a label; `None` for a label never noted.
    pub closed spec fn category(&self, name: Seq<char>) -> Option<(u64, u64)> {
        lookup(self.cats@, name)
    }

    pub closed spec fn wf(&self) -> bool {
        sorted_by_label(self.cats@)
    }

    /// What the labels hold is what these calls of `note`, first to last, put there.
    pub open spec fn records(&self, calls: Seq<(Seq<char>, u64)>) -> bool {
        forall|name: Seq<char>| #[trigger] self.category(name) == totals_after(calls, name)
    }

    /// Nothing committed yet.
    pub fn new() -> (p: MemProf)
        ensures
            p.wf(),
            p.totals() == (0u64, 0u64, 0u64, 0u64, 0u64),
            forall|name: Seq<char>| p.category(name) is None,
            p.records(Seq::empty()),
    {
        MemProf {
            tex_uncompressed: 0,
            tex_bc: 0,
            buf: 0,
            tex_count: 0,
            mesh_count: 0,
            cats: Vec::new(),
        }
    }

    proof fn lemma_entry_decides(&self, name: Seq<char>, i: int)
        requires
            self.wf(),
            entry_at(self.cats@, name, i),
        ensures
            self.category(name) == Some((self.cats@[i].1, self.cats@[i].2)),
    {
        let j = choose|j: int| entry_at(self.cats@, name, j);
        assert(entry_at(self.cats@, name, j));
        assert(self.cats@[i].0.spec_bytes() == self.cats@[j].0.spec_bytes());
        if i < j {
            assert(precedes(self.cats@[i].0.spec_bytes(), self.cats@[j].0.spec_bytes()));
            law_precedes_is_strict(self.cats@[i].0.spec_bytes(), self.cats@[j].0.spec_bytes());
        } else if j < i {
            assert(precedes(self.cats@[j].0.spec_bytes(), self.cats@[i].0.spec_bytes()));
            law_precedes_is_strict(self.cats@[j].0.spec_bytes(), self.cats@[i].0.spec_bytes());
        }
    }
}

/// Count one uncompressed texture of `n` bytes.
pub fn add_tex_uncompressed(p: &mut MemProf, n: u64)
    requires
        old(p).wf(),
    ensures
        final(p).wf(),
        final(p).totals() == (
            old(p).totals().0.wrapping_add(n),
            old(p).totals().1,
            old(p).totals().2,
            old(p).totals().3.wrapping_add(1),
            old(p).totals().4,
        ),
        forall|name: Seq<char>| final(p).category(name) == old(p).category(name),
{
    p.tex_uncompressed = p.tex_uncompressed.wrapping_add(n);
    p.tex_count = p.tex_count.wrapping_add(1);
}

/// Count one block-compressed texture of `n` bytes.
pub fn add_tex_bc(p: &mut MemProf, n: u64)
    requires
        old(p).wf(),
    ensures
        final(p).wf(),
        final(p).totals() == (
            old(p).totals().0,
            old(p).totals().1.wrapping_add(n),
            old(p).totals().2,
            old(p).totals().3.wrapping_add(1),
            old(p).totals().4,
        ),
        forall|name: Seq<char>| final(p).category(name) == old(p).category(name),
{
    p.tex_bc = p.tex_bc.wrapping_add(n);
    p.tex_count = p.tex_count.wrapping_add(1);
}

/// Count `n` bytes of mesh buffers.
pub fn add_buf(p: &mut MemProf, n: u64)
    requires
        old(p).wf(),
    ensures
        final(p).wf(),
        final(p).totals() == (
            old(p).totals().0,
            old(p).totals().1,
            old(p).totals().2.wrapping_add(n),
            old(p).totals().3,
            old(p).totals().4,
        ),
        forall|name: Seq<char>| final(p).category(name) == old(p).category(name),
{
    p.buf = p.buf.wrapping_add(n);
}

/// Count one mesh.
pub fn add_mesh(p: &mut MemProf)
    requires
        old(p).wf(),
    ensures
        final(p).wf(),
        final(p).totals() == (
            old(p).totals().0,
            old(p).totals().1,
            old(p).totals().2,
            old(p).totals().3,
            old(p).totals().4.wrapping_add(1),
        ),
        forall|name: Seq<char>| final(p).category(name) == old(p).category(name),
{
    p.mesh_count = p.mesh_count.wrapping_add(1);
}

/// (uncompressed texture bytes, block-compressed texture bytes, buffer bytes, textures, meshes)
pub fn report(p: &MemProf) -> (r: (u64, u64, u64, u64, u64))
    ensures
        r == p.totals(),
{
    (p.tex_uncompressed, p.tex_bc, p.buf, p.tex_count, p.mesh_count)
}

/// The totals of a label after one more creation of `bytes` bytes.
pub open spec fn noted(before: Option<(u64, u64)>, bytes: u64) -> Option<(u64, u64)> {
    match before {
        Some(t) => Some((t.0.wrapping_add(1), t.1.wrapping_add(bytes))),
        None => Some((1u64, bytes)),
    }
}

/// The totals of a label after a history of (label, bytes) calls; `None` before its first.
pub open spec fn totals_after(calls: Seq<(Seq<char>, u64)>, name: Seq<char>) -> Option<(u64, u64)>
    decreases calls.len(),
{
    if calls.len() == 0 {
        None
    } else {
        let before = totals_after(calls.drop_last(), name);
        let (label, bytes) = calls.last();
        if label == name {
            noted(before, bytes)
        } else {
            before
        }
    }
}

/// How often a label was noted.
pub open spec fn times_noted(calls: Seq<(Seq<char>, u64)>, name: Seq<char>) -> int
    decreases calls.len(),
{
    if calls.len() == 0 {
        0
    } else {
        let (label, bytes) = calls.last();
        times_noted(calls.drop_last(), name) + if label == name {
            1int
        } else {
            0int
        }
    }
}

/// The bytes noted under a label, all calls together.
pub open spec fn bytes_noted(calls: Seq<(Seq<char>, u64)>, name: Seq<char>) -> int
    decreases calls.len(),
{
    if calls.len() == 0 {
        0
    } else {
        let (label, bytes) = calls.last();
        bytes_noted(calls.drop_last(), name) + if label == name {
            bytes as int
        } else {
            0int
        }
    }
}

/// A label was noted exactly when some call names it.
pub proof fn law_noted_labels_are_those_called(calls: Seq<(Seq<char>, u64)>, name: Seq<char>)
    ensures
        times_noted(calls, name) >= 0,
        times_noted(calls, name) > 0 <==> (exists|i: int|
            0 <= i < calls.len() && (#[trigger] calls[i]).0 == name),
    decreases calls.len(),
{
    if calls.len() > 0 {
        let before = calls.drop_last();
        law_noted_labels_are_those_called(before, name);
        assert forall|i: int| 0 <= i < before.len() implies #[trigger] before[i] == calls[i] by {}
        if calls.last().0 == name {
            assert(calls[calls.len() - 1].0 == name);
        } else if exists|i: int| 0 <= i < calls.len() && (#[trigger] calls[i]).0 == name {
            let i = choose|i: int| 0 <= i < calls.len() && (#[trigger] calls[i]).0 == name;
            assert(before[i].0 == name);
        } else if times_noted(before, name) > 0 {
            let i = choose|i: int| 0 <= i < before.len() && (#[trigger] before[i]).0 == name;
            assert(calls[i].0 == name);
        }
    }
}

/// What a label holds is how often it was noted and the sum of the bytes, each as far as 64 bits
/// hold it; a label never noted holds nothing.
pub proof fn law_totals_count_and_sum(calls: Seq<(Seq<char>, u64)>, name: Seq<char>)
    ensures
        totals_after(calls, name) == if times_noted(calls, name) == 0 {
            None
        } else {
            Some(
                (
                    (times_noted(calls, name) % 0x1_0000_0000_0000_0000) as u64,
                    (bytes_noted(calls, name) % 0x1_0000_0000_0000_0000) as u64,
                ),
            )
        },
        times_noted(calls, name) >= 0,
        bytes_noted(calls, name) >= 0,
        times_noted(calls, name) == 0 ==> bytes_noted(calls, name) == 0,
    decreases calls.len(),
{
    if calls.len() > 0 {
        law_totals_count_and_sum(calls.drop_last(), name);
    }
}

/// The snapshot lists exactly the labels that were noted, each once and in increasing order, with
/// the number of its calls and the sum of their bytes.
pub proof fn law_categories_list_the_history(
    p: MemProf,
    rows: Seq<(&'static str, u64, u64)>,
    calls: Seq<(Seq<char>, u64)>,
)
    requires
        p.records(calls),
        is_snapshot(p, rows),
    ensures
        sorted_by_label(rows),
        forall|name: Seq<char>|
            #![trigger times_noted(calls, name)]
            times_noted(calls, name) > 0 <==> (exists|i: int|
                0 <= i < rows.len() && (#[trigger] rows[i]).0@ == name),
        forall|i: int|
            0 <= i < rows.len() ==> (#[trigger] rows[i]).1 == times_noted(calls, rows[i].0@)
                % 0x1_0000_0000_0000_0000 && rows[i].2 == bytes_noted(calls, rows[i].0@)
                % 0x1_0000_0000_0000_0000,
{
    assert forall|name: Seq<char>|
        #![trigger times_noted(calls, name)]
        times_noted(calls, name) > 0 <==> (exists|i: int|
            0 <= i < rows.len() && (#[trigger] rows[i]).0@ == name) by {
        law_totals_count_and_sum(calls, name);
        assert(p.category(name) == totals_after(calls, name));
    }
    assert forall|i: int| 0 <= i < rows.len() implies (#[trigger] rows[i]).1 == times_noted(
        calls,
        rows[i].0@,
    ) % 0x1_0000_0000_0000_0000 && rows[i].2 == bytes_noted(calls, rows[i].0@)
        % 0x1_0000_0000_0000_0000 by {
        law_totals_count_and_sum(calls, rows[i].0@);
        assert(p.category(rows[i].0@) == totals_after(calls, rows[i].0@));
    }
}

/// Note one creation of `bytes` bytes under `category`.
pub fn note(p: &mut MemProf, category: &'static str, bytes: u64)
    requires
        old(p).wf(),
    ensures
        final(p).wf(),
        final(p).totals() == old(p).totals(),
        forall|name: Seq<char>|
            #![trigger final(p).category(name)]
            #![trigger old(p).category(name)]
            final(p).category(name) == if name == category@ {
                noted(old(p).category(name), bytes)
            } else {
                old(p).category(name)
            },
        forall|calls: Seq<(Seq<char>, u64)>| #[trigger]
            old(p).records(calls) ==> final(p).records(calls.push((category@, bytes))),
{
    let label: &[u8] = category.as_bytes();
    let mut i: usize = 0;
    let mut found: bool = false;
    while i < p.cats.len() && !found
        invariant
            *p == *old(p),
            p.wf(),
            label@ == category.spec_bytes(),
            i <= p.cats@.len(),
            forall|j: int|
                0 <= j < i ==> #[trigger] precedes(p.cats@[j].0.spec_bytes(), category.spec_bytes()),
            found ==> i < p.cats@.len() && !precedes(
                p.cats@[i as int].0.spec_bytes(),
                category.spec_bytes(),
            ),
        decreases
            p.cats@.len() - i + if found {
                0int
            } else {
                1int
            },
    {
        match rank(p.cats[i].0.as_bytes(), label) {
            Rank::Before => {
                i = i + 1;
            },
            _ => {
                found = true;
            },
        }
    }
    let same: bool = i < p.cats.len() && rank(p.cats[i].0.as_bytes(), label) == Rank::Same;
    let ghost before = *p;
    if same {
        let e: (&'static str, u64, u64) = p.cats[i];
        p.cats.set(i, (e.0, e.1.wrapping_add(1), e.2.wrapping_add(bytes)));
    } else {
        p.cats.insert(i, (category, 1, bytes));
    }
    proof {
        let (old_cats, cats) = (before.cats@, p.cats@);
        if same {
            // Equal bytes are equal labels.
            vstd::utf8::encode_utf8_decode_utf8(category@);
            vstd::utf8::encode_utf8_decode_utf8(old_cats[i as int].0@);
            assert(old_cats[i as int].0@ == category@);
            assert forall|a: int, b: int| 0 <= a < b < cats.len() implies #[trigger] precedes(
                cats[a].0.spec_bytes(),
                cats[b].0.spec_bytes(),
            ) by {
                assert(precedes(old_cats[a].0.spec_bytes(), old_cats[b].0.spec_bytes()));
            }
        } else {
            if i < old_cats.len() {
                assert(precedes(category.spec_bytes(), old_cats[i as int].0.spec_bytes()));
            }
            assert forall|b: int| i <= b < old_cats.len() implies #[trigger] precedes(
                category.spec_bytes(),
                old_cats[b].0.spec_bytes(),
            ) by {
                if b > i {
                    assert(precedes(old_cats[i as int].0.spec_bytes(), old_cats[b].0.spec_bytes()));
                    law_precedes_is_transitive(
                        category.spec_bytes(),
                        old_cats[i as int].0.spec_bytes(),
                        old_cats[b].0.spec_bytes(),
                    );
                }
            }
            assert forall|a: int, b: int| 0 <= a < b < cats.len() implies #[trigger] precedes(
                cats[a].0.spec_bytes(),
                cats[b].0.spec_bytes(),
            ) by {
                let oa = if a < i {
                    a
                } else {
                    a - 1
                };
                let ob = if b < i {
                    b
                } else {
                    b - 1
                };
                if a != i && b != i {
                    assert(precedes(old_cats[oa].0.spec_bytes(), old_cats[ob].0.spec_bytes()));
                } else if a == i {
                    assert(precedes(category.spec_bytes(), old_cats[ob].0.spec_bytes()));
                } else {
                    assert(precedes(old_cats[a].0.spec_bytes(), category.spec_bytes()));
                }
            }
            assert forall|j: int| 0 <= j < old_cats.len() implies old_cats[j].0@ != category@ by {
                if old_cats[j].0@ == category@ {
                    if j < i {
                        assert(precedes(old_cats[j].0.spec_bytes(), category.spec_bytes()));
                        law_precedes_is_strict(old_cats[j].0.spec_bytes(), category.spec_bytes());
                    } else {
                        assert(precedes(category.spec_bytes(), old_cats[j].0.spec_bytes()));
                        law_precedes_is_strict(category.spec_bytes(), old_cats[j].0.spec_bytes());
                    }
                }
            }
        }
        assert(p.wf());
        assert(entry_at(cats, category@, i as int));
        p.lemma_entry_decides(category@, i as int);
        if same {
            assert(entry_at(old_cats, category@, i as int));
            before.lemma_entry_decides(category@, i as int);
        } else {
            assert(forall|j: int| !entry_at(old_cats, category@, j));
        }
        assert forall|name: Seq<char>| name != category@ implies #[trigger] p.category(name)
            == before.category(name) by {
            if exists|j: int| entry_at(old_cats, name, j) {
                let j = choose|j: int| entry_at(old_cats, name, j);
                let k = if same || j < i {
                    j
                } else {
                    j + 1
                };
                assert(entry_at(cats, name, k));
                p.lemma_entry_decides(name, k);
                before.lemma_entry_decides(name, j);
            } else {
                assert forall|k: int| !entry_at(cats, name, k) by {
                    if entry_at(cats, name, k) {
                        let j = if same || k < i {
                            k
                        } else {
                            k - 1
                        };
                        assert(entry_at(old_cats, name, j));
                    }
                }
            }
        }
        assert forall|calls: Seq<(Seq<char>, u64)>| #[trigger] old(p).records(calls) implies
            p.records(calls.push((category@, bytes))) by {
            let more = calls.push((category@, bytes));
            assert(more.drop_last() =~= calls);
            assert forall|name: Seq<char>| #[trigger] p.category(name) == totals_after(
                more,
                name,
            ) by {
                assert(old(p).category(name) == totals_after(calls, name));
            }
        }
    }
}

/// Rows that list the totals of every label of a profile, sorted by label.
pub open spec fn is_snapshot(p: MemProf, rows: Seq<(&'static str, u64, u64)>) -> bool {
    &&& sorted_by_label(rows)
    &&& forall|i: int|
        0 <= i < rows.len() ==> p.category((#[trigger] rows[i]).0@) == Some(
            (rows[i].1, rows[i].2),
        )
    &&& forall|name: Seq<char>|
        (#[trigger] p.category(name)) is Some ==> exists|i: int|
            0 <= i < rows.len() && (#[trigger] rows[i]).0@ == name
}

/// Snapshot of the per-label totals: (label, count, bytes), sorted by label.
pub fn categories(p: &MemProf) -> (rows: Vec<(&'static str, u64, u64)>)
    requires
        p.wf(),
    ensures
        is_snapshot(*p, rows@),
{
    let mut rows: Vec<(&'static str, u64, u64)> = Vec::new();
    let mut i: usize = 0;
    while i < p.cats.len()
        invariant
            i <= p.cats@.len(),
            rows@ == p.cats@.take(i as int),
        decreases p.cats@.len() - i,
    {
        rows.push(p.cats[i]);
        i = i + 1;
        assert(p.cats@.take(i as int) =~= p.cats@.take(i - 1).push(p.cats@[i - 1]));
    }
    assert(rows@ =~= p.cats@);
    proof {
        assert forall|k: int| 0 <= k < rows@.len() implies p.category((#[trigger] rows@[k]).0@)
            == Some((rows@[k].1, rows@[k].2)) by {
            assert(entry_at(p.cats@, rows@[k].0@, k));
            p.lemma_entry_decides(rows@[k].0@, k);
        }
        assert forall|name: Seq<char>| (#[trigger] p.category(name)) is Some implies exists|k: int|
            0 <= k < rows@.len() && (#[trigger] rows@[k]).0@ == name by {
            let k = choose|k: int| entry_at(p.cats@, name, k);
            assert(rows@[k].0@ == name);
        }
    }
    rows
}

} // verus!
