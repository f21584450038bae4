//! Where the embedded signature lives: choosing the offset of a new slot, and
//! finding the slot of an existing signature, over the plain views of a
//! module's sections.

use crate::errors::{ParseReason, UsageReason, WError};
use crate::signature::{le32_value, read_le32};
use crate::wasm::{
    const_expr, views, DataSegment, DataView, ExportEntry, ExportTarget, ExportView, GlobalEntry,
    GlobalView, Instr,
};
use vstd::prelude::*;

verus! {

/// The first index of `s` whose element satisfies `p`, if any.
#[verifier::opaque]
pub open spec fn first_index<A>(s: Seq<A>, p: spec_fn(A) -> bool) -> Option<int> {
    if exists|j: int| 0 <= j < s.len() && p(s[j]) {
        Some(choose|j: int| 0 <= j < s.len() && p(s[j]) && forall|k: int| 0 <= k < j ==> !p(s[k]))
    } else {
        None
    }
}

pub(crate) proof fn lemma_first_index_found<A>(s: Seq<A>, p: spec_fn(A) -> bool, i: int)
    requires
        0 <= i < s.len(),
        p(s[i]),
        forall|k: int| 0 <= k < i ==> !p(s[k]),
    ensures
        first_index(s, p) == Some(i),
{
    reveal(first_index);
    let j = choose|j: int| 0 <= j < s.len() && p(s[j]) && forall|k: int| 0 <= k < j ==> !p(s[k]);
    assert(0 <= j < s.len() && p(s[j]) && forall|k: int| 0 <= k < j ==> !p(s[k]));
    if j < i {
        assert(!p(s[j]));
    } else if i < j {
        assert(!p(s[i]));
    }
}

proof fn lemma_first_index_some<A>(s: Seq<A>, p: spec_fn(A) -> bool)
    ensures
        first_index(s, p) is Some <==> exists|j: int| 0 <= j < s.len() && p(s[j]),
{
    reveal(first_index);
}

pub(crate) proof fn lemma_first_index_none<A>(s: Seq<A>, p: spec_fn(A) -> bool)
    requires
        forall|k: int| 0 <= k < s.len() ==> !p(s[k]),
    ensures
        first_index(s, p) is None,
{
    reveal(first_index);
}

/// The offset `k` of the expression `i32.const k; end`.
pub open spec fn const_value(code: Seq<Instr>) -> Option<i32> {
    if code.len() == 2 && code[1] == Instr::End && code[0] is I32Const {
        Some(code[0]->I32Const_0)
    } else {
        None
    }
}

/// Where a well-formed data segment ends: its offset is `i32.const k; end`
/// with `k >= 0`, and `k` plus its length fits in 32 bits.
pub open spec fn segment_end(seg: DataView) -> Option<int> {
    match const_value(seg.0) {
        Some(k) => if k >= 0 && k + seg.1.len() <= u32::MAX {
            Some(k + seg.1.len())
        } else {
            None
        },
        None => None,
    }
}

/// Segment `i` is the first of those with the longest payload.
pub open spec fn is_longest(d: Seq<DataView>, i: int) -> bool {
    &&& 0 <= i < d.len()
    &&& forall|j: int| 0 <= j < d.len() ==> d[j].1.len() <= d[i].1.len()
    &&& forall|j: int| 0 <= j < i ==> d[j].1.len() < d[i].1.len()
}

/// The offset of a new signature slot: just past the first segment with the
/// longest payload, once every segment is known to be well-formed.
pub open spec fn slot_offset(d: Seq<DataView>) -> Result<int, WError> {
    if exists|j: int| 0 <= j < d.len() && segment_end(d[j]) is None {
        Err(WError::ParseError(ParseReason::MalformedDataSegment))
    } else if d.len() == 0 {
        Err(WError::ParseError(ParseReason::NoDataSegment))
    } else {
        Ok(segment_end(d[choose|i: int| is_longest(d, i)])->Some_0)
    }
}

proof fn lemma_longest_unique(d: Seq<DataView>, i: int)
    requires
        is_longest(d, i),
    ensures
        (choose|j: int| is_longest(d, j)) == i,
{
    let j = choose|j: int| is_longest(d, j);
    assert(is_longest(d, j));
    if j < i {
        assert(d[j].1.len() < d[i].1.len());
    } else if i < j {
        assert(d[i].1.len() < d[j].1.len());
    }
}

proof fn lemma_longest_exists(d: Seq<DataView>)
    requires
        d.len() > 0,
    ensures
        exists|i: int| is_longest(d, i),
    decreases d.len(),
{
    if d.len() == 1 {
        assert(is_longest(d, 0));
    } else {
        let p = d.drop_last();
        lemma_longest_exists(p);
        let i = choose|i: int| is_longest(p, i);
        let n = d.len() - 1;
        if d[n].1.len() > p[i].1.len() {
            assert forall|j: int| 0 <= j < d.len() implies d[j].1.len() <= d[n].1.len() by {
                if j < n {
                    assert(d[j] == p[j]);
                }
            };
            assert forall|j: int| 0 <= j < n implies d[j].1.len() < d[n].1.len() by {
                assert(d[j] == p[j]);
            };
            assert(is_longest(d, n));
        } else {
            assert forall|j: int| 0 <= j < d.len() implies d[j].1.len() <= d[i].1.len() by {
                if j < n {
                    assert(d[j] == p[j]);
                }
            };
            assert forall|j: int| 0 <= j < i implies d[j].1.len() < d[i].1.len() by {
                assert(d[j] == p[j]);
            };
            assert(is_longest(d, i));
        }
    }
}

/// A slot offset, when there is one, is the end of a well-formed segment:
/// at least zero and at most `u32::MAX`.
pub proof fn lemma_slot_offset_in_range(d: Seq<DataView>)
    ensures
        slot_offset(d) is Ok ==> 0 <= slot_offset(d)->Ok_0 <= u32::MAX,
{
    if slot_offset(d) is Ok {
        lemma_longest_exists(d);
        let i = choose|i: int| is_longest(d, i);
        assert(segment_end(d[i]) is Some);
    }
}

/// Whether an export already bears the name `name`.
pub open spec fn has_export(e: Seq<ExportView>, name: Seq<u8>) -> bool {
    exists|j: int| 0 <= j < e.len() && e[j].0 == name
}

/// The offset of the signature slot that a module gets, or why it gets none.
pub open spec fn embed_plan(
    data: Option<Seq<DataView>>,
    globals: Option<Seq<GlobalView>>,
    exports: Option<Seq<ExportView>>,
    name: Seq<u8>,
    sig_len: int,
) -> Result<int, WError> {
    match data {
        None => Err(WError::ParseError(ParseReason::NoDataSection)),
        Some(d) => match slot_offset(d) {
            Err(e) => Err(e),
            Ok(o) => if o + sig_len + 4 > i32::MAX {
                Err(WError::UsageError(UsageReason::OffsetOverflow))
            } else {
                match globals {
                    None => Err(WError::ParseError(ParseReason::NoGlobalSection)),
                    Some(g) => if g.len() > u32::MAX {
                        Err(WError::UsageError(UsageReason::SectionFull))
                    } else {
                        match exports {
                            None => Err(WError::ParseError(ParseReason::NoExportSection)),
                            Some(e) => if has_export(e, name) {
                                Err(WError::ParseError(ParseReason::SymbolAlreadyPresent))
                            } else {
                                Ok(o)
                            },
                        }
                    },
                }
            },
        },
    }
}

/// The index of the first export named `name`.
pub open spec fn export_named(e: Seq<ExportView>, name: Seq<u8>) -> Option<int> {
    first_index(e, |x: ExportView| x.0 == name)
}

/// The first export named `name` is at `i` when it has that name and none
/// before it has.
pub proof fn lemma_export_named_at(e: Seq<ExportView>, name: Seq<u8>, i: int)
    requires
        0 <= i < e.len(),
        e[i].0 == name,
        forall|k: int| 0 <= k < i ==> (#[trigger] e[k]).0 != name,
    ensures
        export_named(e, name) == Some(i),
{
    reveal(first_index);
    assert(0 <= i < e.len() && e[i].0 == name);
    let j = choose|j: int| 0 <= j < e.len() && e[j].0 == name && forall|k: int| 0 <= k < j ==> e[k].0 != name;
    assert(0 <= j < e.len() && e[j].0 == name && forall|k: int| 0 <= k < j ==> e[k].0 != name);
    if j < i {
        assert(e[j].0 != name);
    } else if i < j {
        assert(e[i].0 != name);
    }
}

/// The first data segment at offset `k` is at `i` when it has that offset
/// and none before it has.
pub proof fn lemma_segment_at_index(d: Seq<DataView>, k: i32, i: int)
    requires
        0 <= i < d.len(),
        d[i].0 == const_expr(k),
        forall|j: int| 0 <= j < i ==> (#[trigger] d[j]).0 != const_expr(k),
    ensures
        segment_at(d, k) == Some(i),
{
    let p = |x: DataView| x.0 == const_expr(k);
    assert forall|j: int| 0 <= j < i implies !p(#[trigger] d[j]) by {};
    lemma_first_index_found(d, p, i);
}

/// The index of the first data segment whose offset is `i32.const k; end`.
pub open spec fn segment_at(d: Seq<DataView>, k: i32) -> Option<int> {
    first_index(d, |x: DataView| x.0 == const_expr(k))
}

/// The index of the data segment that holds the signature exported under
/// `name`, found through the exported global and the reference segment that
/// it points at, or why there is none.
#[verifier::opaque]
pub open spec fn locate_slot(
    data: Option<Seq<DataView>>,
    globals: Option<Seq<GlobalView>>,
    exports: Option<Seq<ExportView>>,
    name: Seq<u8>,
) -> Result<int, WError> {
    match exports {
        None => Err(WError::ParseError(ParseReason::NoExportSection)),
        Some(e) => match export_named(e, name) {
            None => Err(WError::ParseError(ParseReason::SymbolNotFound)),
            Some(x) => match e[x].1 {
                ExportTarget::Other => Err(WError::ParseError(ParseReason::NotAGlobal)),
                ExportTarget::Global(gid) => match globals {
                    None => Err(WError::ParseError(ParseReason::NoGlobalSection)),
                    Some(g) => if gid >= g.len() {
                        Err(WError::ParseError(ParseReason::GlobalOutOfRange))
                    } else if g[gid as int].0 {
                        Err(WError::ParseError(ParseReason::MutableGlobal))
                    } else if !g[gid as int].1 {
                        Err(WError::ParseError(ParseReason::NotAnI32Global))
                    } else {
                        match const_value(g[gid as int].2) {
                            None => Err(WError::ParseError(ParseReason::MalformedGlobalInit)),
                            Some(o_ref) => locate_from_reference(data, o_ref),
                        }
                    },
                },
            },
        },
    }
}

/// The second half of `locate_slot`: from the offset of the reference
/// segment to the slot.
#[verifier::opaque]
pub open spec fn locate_from_reference(data: Option<Seq<DataView>>, o_ref: i32) -> Result<int, WError> {
    match data {
        None => Err(WError::ParseError(ParseReason::NoDataSection)),
        Some(d) => match segment_at(d, o_ref) {
            None => Err(WError::ParseError(ParseReason::ReferenceNotFound)),
            Some(r) => if d[r].1.len() != 4 {
                Err(WError::ParseError(ParseReason::BadReferenceLength))
            } else if (le32_value(d[r].1) as i32) < 0 {
                Err(WError::ParseError(ParseReason::NegativeOffset))
            } else {
                match segment_at(d, le32_value(d[r].1) as i32) {
                    None => Err(WError::ParseError(ParseReason::SlotNotFound)),
                    Some(s) => Ok(s),
                }
            },
        },
    }
}

/// The offset `k` of an expression `i32.const k; end`, if it is one.
pub fn const_value_of(code: &Vec<Instr>) -> (r: Option<i32>)
    ensures
        r == const_value(code@),
        r is Some ==> code@ == const_expr(r->Some_0),
        r is None ==> forall|k: i32| code@ != const_expr(k),
{
    if code.len() != 2 {
        return None;
    }
    match (code[0], code[1]) {
        (Instr::I32Const(k), Instr::End) => {
            assert(code@ =~= const_expr(k));
            Some(k)
        },
        _ => {
            assert forall|k: i32| code@ != const_expr(k) by {
                if code@ == const_expr(k) {
                    assert(code@[0] == Instr::I32Const(k));
                }
            };
            None
        },
    }
}

/// Where the data segment `seg` ends, if it is well-formed.
fn segment_end_of(seg: &DataSegment) -> (r: Option<u32>)
    ensures
        r is Some <==> segment_end(seg@) is Some,
        r is Some ==> r->Some_0 == segment_end(seg@)->Some_0,
{
    match const_value_of(&seg.offset) {
        Some(k) => {
            if k < 0 {
                return None;
            }
            let len = seg.payload.len();
            if (u32::MAX as usize - k as usize) < len {
                return None;
            }
            Some(k as u32 + len as u32)
        },
        None => None,
    }
}

/// The offset of a new signature slot: just past the first data segment with
/// the longest payload. Every segment must be well-formed.
pub fn signature_slot_offset(data: &Vec<DataSegment>) -> (r: Result<u32, WError>)
    ensures
        r is Ok <==> slot_offset(views(data@)) is Ok,
        r is Ok ==> r->Ok_0 == slot_offset(views(data@))->Ok_0,
        r is Err ==> r == Err::<u32, WError>(slot_offset(views(data@))->Err_0),
{
    let ghost d = views(data@);
    let mut best: usize = 0;
    let mut best_end: u32 = 0;
    let mut i: usize = 0;
    while i < data.len()
        invariant
            d == views(data@),
            i <= data@.len(),
            forall|j: int| 0 <= j < i ==> segment_end(#[trigger] d[j]) is Some,
            i > 0 ==> best < i && forall|j: int| 0 <= j < i ==> d[j].1.len() <= d[best as int].1.len(),
            i > 0 ==> forall|j: int| 0 <= j < best ==> d[j].1.len() < d[best as int].1.len(),
            i > 0 ==> best_end == segment_end(d[best as int])->Some_0,
        decreases data@.len() - i,
    {
        let seg = &data[i];
        assert(seg@ == d[i as int]);
        let end = match segment_end_of(seg) {
            Some(e) => e,
            None => {
                assert(segment_end(d[i as int]) is None);
                return Err(WError::ParseError(ParseReason::MalformedDataSegment));
            },
        };
        if i == 0 || seg.payload.len() > data[best].payload.len() {
            best = i;
            best_end = end;
        }
        i = i + 1;
    }
    if data.len() == 0 {
        return Err(WError::ParseError(ParseReason::NoDataSegment));
    }
    assert(is_longest(d, best as int));
    proof {
        lemma_longest_unique(d, best as int);
    }
    Ok(best_end)
}

/// Whether two byte strings are equal.
pub fn bytes_eq(a: &[u8], b: &[u8]) -> (r: bool)
    ensures
        r == (a@ == b@),
{
    if a.len() != b.len() {
        return false;
    }
    let mut i: usize = 0;
    while i < a.len()
        invariant
            i <= a@.len() == b@.len(),
            forall|j: int| 0 <= j < i ==> a@[j] == b@[j],
        decreases a@.len() - i,
    {
        if a[i] != b[i] {
            return false;
        }
        i = i + 1;
    }
    assert(a@ =~= b@);
    true
}

/// The index of the first export named `name`.
pub fn find_export(exports: &Vec<ExportEntry>, name: &[u8]) -> (r: Option<usize>)
    ensures
        r is Some <==> export_named(views(exports@), name@) is Some,
        r is Some ==> r->Some_0 == export_named(views(exports@), name@)->Some_0,
        r is Some ==> r->Some_0 < exports@.len(),
{
    let ghost e = views(exports@);
    let ghost p = |x: ExportView| x.0 == name@;
    let mut i: usize = 0;
    while i < exports.len()
        invariant
            e == views(exports@),
            p == (|x: ExportView| x.0 == name@),
            i <= exports@.len(),
            forall|k: int| 0 <= k < i ==> !p(#[trigger] e[k]),
        decreases exports@.len() - i,
    {
        assert(exports@[i as int]@ == e[i as int]);
        if bytes_eq(exports[i].name.as_slice(), name) {
            proof {
                lemma_first_index_found(e, p, i as int);
            }
            return Some(i);
        }
        i = i + 1;
    }
    proof {
        lemma_first_index_none(e, p);
    }
    None
}

/// Whether an export already bears the name `name`.
pub fn export_exists(exports: &Vec<ExportEntry>, name: &[u8]) -> (r: bool)
    ensures
        r == has_export(views(exports@), name@),
{
    let ghost e = views(exports@);
    let found = find_export(exports, name);
    proof {
        let p = |x: ExportView| x.0 == name@;
        lemma_first_index_some(e, p);
        if has_export(e, name@) {
            let j = choose|j: int| 0 <= j < e.len() && e[j].0 == name@;
            assert(p(e[j]));
        }
    }
    found.is_some()
}

/// The index of the first data segment whose offset is `i32.const k; end`.
pub fn find_segment_at(data: &Vec<DataSegment>, k: i32) -> (r: Option<usize>)
    ensures
        r is Some <==> segment_at(views(data@), k) is Some,
        r is Some ==> r->Some_0 == segment_at(views(data@), k)->Some_0,
        r is Some ==> r->Some_0 < data@.len(),
{
    let ghost d = views(data@);
    let ghost p = |x: DataView| x.0 == const_expr(k);
    let mut i: usize = 0;
    while i < data.len()
        invariant
            d == views(data@),
            p == (|x: DataView| x.0 == const_expr(k)),
            i <= data@.len(),
            forall|j: int| 0 <= j < i ==> !p(#[trigger] d[j]),
        decreases data@.len() - i,
    {
        assert(data@[i as int]@ == d[i as int]);
        match const_value_of(&data[i].offset) {
            Some(v) => {
                if v == k {
                    proof {
                        lemma_first_index_found(d, p, i as int);
                    }
                    return Some(i);
                }
            },
            None => {},
        }
        i = i + 1;
    }
    proof {
        lemma_first_index_none(d, p);
    }
    None
}

/// The views of the entries of a section that may be absent.
pub open spec fn opt_views<T: View>(o: Option<Vec<T>>) -> Option<Seq<T::V>> {
    match o {
        Some(v) => Some(views(v@)),
        None => None,
    }
}

/// The index of the data segment that holds the signature exported under
/// `name`.
pub fn locate_signature_slot(
    data: &Option<Vec<DataSegment>>,
    globals: &Option<Vec<GlobalEntry>>,
    exports: &Option<Vec<ExportEntry>>,
    name: &[u8],
) -> (r: Result<usize, WError>)
    ensures
        match r {
            Ok(i) => locate_slot(opt_views(*data), opt_views(*globals), opt_views(*exports), name@) == Ok::<int, WError>(i as int),
            Err(e) => locate_slot(opt_views(*data), opt_views(*globals), opt_views(*exports), name@) == Err::<int, WError>(e),
        },
        r is Ok ==> data is Some && r->Ok_0 < data->Some_0@.len(),
{
    reveal(locate_slot);
    let exports = match exports {
        Some(e) => e,
        None => return Err(WError::ParseError(ParseReason::NoExportSection)),
    };
    let x = match find_export(exports, name) {
        Some(x) => x,
        None => return Err(WError::ParseError(ParseReason::SymbolNotFound)),
    };
    assert(exports@[x as int]@ == views(exports@)[x as int]);
    let gid = match exports[x].target {
        ExportTarget::Global(gid) => gid,
        ExportTarget::Other => return Err(WError::ParseError(ParseReason::NotAGlobal)),
    };
    let globals = match globals {
        Some(g) => g,
        None => return Err(WError::ParseError(ParseReason::NoGlobalSection)),
    };
    if gid as usize >= globals.len() {
        return Err(WError::ParseError(ParseReason::GlobalOutOfRange));
    }
    let global = &globals[gid as usize];
    assert(global@ == views(globals@)[gid as int]);
    if global.is_mutable {
        return Err(WError::ParseError(ParseReason::MutableGlobal));
    }
    if !global.is_i32 {
        return Err(WError::ParseError(ParseReason::NotAnI32Global));
    }
    let o_ref = match const_value_of(&global.init) {
        Some(k) => k,
        None => return Err(WError::ParseError(ParseReason::MalformedGlobalInit)),
    };
    slot_from_reference(data, o_ref)
}

/// The index of the slot that the reference segment at `o_ref` points at.
fn slot_from_reference(data: &Option<Vec<DataSegment>>, o_ref: i32) -> (r: Result<usize, WError>)
    ensures
        match r {
            Ok(i) => locate_from_reference(opt_views(*data), o_ref) == Ok::<int, WError>(i as int),
            Err(e) => locate_from_reference(opt_views(*data), o_ref) == Err::<int, WError>(e),
        },
        r is Ok ==> data is Some && r->Ok_0 < data->Some_0@.len(),
{
    reveal(locate_from_reference);
    let data = match data {
        Some(d) => d,
        None => return Err(WError::ParseError(ParseReason::NoDataSection)),
    };
    let r = match find_segment_at(data, o_ref) {
        Some(r) => r,
        None => return Err(WError::ParseError(ParseReason::ReferenceNotFound)),
    };
    let reference = data[r].payload.as_slice();
    assert(data@[r as int]@ == views(data@)[r as int]);
    if reference.len() != 4 {
        return Err(WError::ParseError(ParseReason::BadReferenceLength));
    }
    let o_sig = read_le32(reference) as i32;
    if o_sig < 0 {
        return Err(WError::ParseError(ParseReason::NegativeOffset));
    }
    match find_segment_at(data, o_sig) {
        Some(s) => Ok(s),
        None => Err(WError::ParseError(ParseReason::SlotNotFound)),
    }
}

} // verus!
