//! Source location phase.
//!
//! With debug locations enabled, and the template's path and source known,
//! each view gets, after its creation operations, one source location
//! operation per element whose start in the source is known: the template's
//! path and the element's line (from 1) and column (from 0), counted in bytes.

use vstd::prelude::*;
use vstd::string::StringSliceAdditionalSpecFns;
use crate::ir::{ComponentCompilationJob, CreateOp, SourceLocationOp, ViewCompilationUnit, XrefId};

verus! {

/// The line and column after the first `k` bytes of `b`.
pub open spec fn line_col(b: Seq<u8>, k: int) -> (int, int)
    decreases k,
{
    if k <= 0 {
        (1, 0)
    } else {
        let p = line_col(b, k - 1);
        if b[k - 1] == 10u8 {
            (p.0 + 1, 0)
        } else {
            (p.0, p.1 + 1)
        }
    }
}

/// The line and column of the byte offset `offset` of the source `b` (the end
/// of the source for an offset past it).
pub open spec fn location_of(b: Seq<u8>, offset: u32) -> (int, int) {
    line_col(b, if offset < b.len() { offset as int } else { b.len() as int })
}

proof fn lemma_line_col_bounds(b: Seq<u8>, i: int, k: int)
    requires
        0 <= i <= k,
    ensures
        line_col(b, i).0 <= line_col(b, k).0,
        0 <= line_col(b, k).1 <= k,
        1 <= line_col(b, k).0,
    decreases k,
{
    if k > 0 {
        if i < k {
            lemma_line_col_bounds(b, i, k - 1);
        } else {
            lemma_line_col_bounds(b, k - 1, k - 1);
        }
    }
}

/// The line and column of a byte offset in a source text.
fn offset_to_line_column(source: &str, offset: u32) -> (r: (u32, u32))
    requires
        location_of(source.spec_bytes(), offset).0 <= u32::MAX,
    ensures
        r.0 as int == location_of(source.spec_bytes(), offset).0,
        r.1 as int == location_of(source.spec_bytes(), offset).1,
{
    let bytes = source.as_bytes();
    let ghost b = source.spec_bytes();
    let n = bytes.len();
    let ghost end: int = if offset < b.len() { offset as int } else { b.len() as int };
    let mut line: u32 = 1;
    let mut col: u32 = 0;
    let mut i: usize = 0;
    while i < n && i < offset as usize
        invariant
            bytes@ == b,
            n == b.len(),
            0 <= i <= end,
            end == (if offset < b.len() { offset as int } else { b.len() as int }),
            line_col(b, end).0 <= u32::MAX,
            line as int == line_col(b, i as int).0,
            col as int == line_col(b, i as int).1,
        decreases n - i,
    {
        proof {
            lemma_line_col_bounds(b, i + 1, end);
            lemma_line_col_bounds(b, 0, i + 1);
        }
        if bytes[i] == 10u8 {
            line = line + 1;
            col = 0;
        } else {
            col = col + 1;
        }
        i = i + 1;
    }
    (line, col)
}

/// The id and source start of the elements of the first `k` operations whose start is known.
pub open spec fn located(c: Seq<CreateOp>, k: int) -> Seq<(XrefId, u32)>
    decreases k,
{
    if k <= 0 {
        seq![]
    } else {
        let p = located(c, k - 1);
        match c[k - 1] {
            CreateOp::ElementStart(e) | CreateOp::Element(e) => match e.source_start {
                Some(st) => p.push((e.xref, st)),
                None => p,
            },
            _ => p,
        }
    }
}

/// The source location operation of an element starting at `start`.
pub open spec fn location_op(x: XrefId, start: u32, path: String, src: Seq<u8>) -> CreateOp {
    CreateOp::SourceLocation(
        SourceLocationOp {
            target: x,
            template_url: path,
            line: location_of(src, start).0 as u32,
            column: location_of(src, start).1 as u32,
        },
    )
}

/// The source location operations of a creation list.
pub open spec fn location_ops(c: Seq<CreateOp>, path: String, src: Seq<u8>) -> Seq<CreateOp> {
    located(c, c.len() as int).map_values(|l: (XrefId, u32)| location_op(l.0, l.1, path, src))
}

/// Whether every element whose start is known lies on a line that fits.
pub open spec fn view_lines_fit(v: ViewCompilationUnit, src: Seq<u8>) -> bool {
    let l = located(v.create@, v.create@.len() as int);
    forall|k: int| 0 <= k < l.len() ==> location_of(src, (#[trigger] l[k]).1).0 <= u32::MAX
}

/// Whether every view's element lines fit, for the job's source.
pub open spec fn job_lines_fit(job: ComponentCompilationJob) -> bool {
    match job.template_source {
        Some(src) => {
            &&& view_lines_fit(job.root, vstd::utf8::encode_utf8(src@))
            &&& forall|i: int| 0 <= i < job.views@.len() ==> view_lines_fit(#[trigger] job.views@[i], vstd::utf8::encode_utf8(src@))
        },
        None => true,
    }
}

/// Whether the view `after` is `before` with the source locations of its elements appended.
pub open spec fn view_located(before: ViewCompilationUnit, after: ViewCompilationUnit, path: String, src: Seq<u8>) -> bool {
    &&& after.create@ == before.create@ + location_ops(before.create@, path, src)
    &&& after.update == before.update
    &&& after.functions == before.functions
    &&& after.xref == before.xref
    &&& after.decl_count == before.decl_count
}

/// Whether the job `after` is `before` with source locations attached: to
/// every view when debug locations are on and the path and source are known,
/// to none otherwise.
pub open spec fn job_located(before: ComponentCompilationJob, after: ComponentCompilationJob) -> bool {
    &&& if before.enable_debug_locations && before.relative_template_path is Some && before.template_source is Some {
        let path = before.relative_template_path->Some_0;
        let src = vstd::utf8::encode_utf8(before.template_source->Some_0@);
        &&& view_located(before.root, after.root, path, src)
        &&& after.views@.len() == before.views@.len()
        &&& forall|i: int| 0 <= i < before.views@.len() ==> view_located(before.views@[i], #[trigger] after.views@[i], path, src)
    } else {
        after.root == before.root && after.views == before.views
    }
    &&& after.consts == before.consts
    &&& after.diagnostics == before.diagnostics
    &&& after.next_xref == before.next_xref
    &&& after.compatibility_mode == before.compatibility_mode
    &&& after.mode == before.mode
    &&& after.enable_debug_locations == before.enable_debug_locations
    &&& after.relative_template_path == before.relative_template_path
    &&& after.template_source == before.template_source
}

/// Appends the source locations of the elements of one view.
fn locate_in_view(view: &mut ViewCompilationUnit, path: &String, source: &str)
    requires
        view_lines_fit(*old(view), source.spec_bytes()),
    ensures
        view_located(*old(view), *final(view), *path, source.spec_bytes()),
{
    let ghost c = view.create@;
    let ghost src = source.spec_bytes();
    let n = view.create.len();
    let mut locs: Vec<(XrefId, u32)> = Vec::new();
    let mut i: usize = 0;
    while i < n
        invariant
            n == c.len(),
            view.create@ == c,
            i <= n,
            locs@ == located(c, i as int),
        decreases n - i,
    {
        match &view.create[i] {
            CreateOp::ElementStart(e) | CreateOp::Element(e) => match e.source_start {
                Some(st) => {
                    locs.push((e.xref, st));
                },
                None => {},
            },
            _ => {},
        }
        i = i + 1;
    }
    let ghost l = locs@;
    let mut k: usize = 0;
    while k < locs.len()
        invariant
            l == locs@,
            l == located(c, c.len() as int),
            forall|j: int| 0 <= j < l.len() ==> location_of(src, (#[trigger] l[j]).1).0 <= u32::MAX,
            k <= l.len(),
            src == source.spec_bytes(),
            view.create@ == c + l.take(k as int).map_values(|x: (XrefId, u32)| location_op(x.0, x.1, *path, src)),
            view.update == old(view).update,
            view.functions == old(view).functions,
            view.xref == old(view).xref,
            view.decl_count == old(view).decl_count,
        decreases l.len() - k,
    {
        let (x, st) = locs[k];
        assert(l[k as int] == (x, st));
        let (line, column) = offset_to_line_column(source, st);
        view.create.push(CreateOp::SourceLocation(SourceLocationOp { target: x, template_url: path.clone(), line, column }));
        proof {
            assert(l.take(k + 1) =~= l.take(k as int).push((x, st)));
            assert(c + l.take(k + 1).map_values(|y: (XrefId, u32)| location_op(y.0, y.1, *path, src)) =~= (c + l.take(
                k as int,
            ).map_values(|y: (XrefId, u32)| location_op(y.0, y.1, *path, src))).push(location_op(x, st, *path, src)));
        }
        k = k + 1;
    }
    proof {
        assert(l.take(l.len() as int) =~= l);
    }
}

/// Records where in the template source each element starts, when debug
/// locations are enabled and the template's path and source are known.
pub fn attach_source_locations(job: &mut ComponentCompilationJob)
    requires
        job_lines_fit(*old(job)),
    ensures
        job_located(*old(job), *final(job)),
{
    if !job.enable_debug_locations {
        return;
    }
    let path = match &job.relative_template_path {
        Some(p) => p.clone(),
        None => {
            return;
        },
    };
    let source = match &job.template_source {
        Some(s) => s.clone(),
        None => {
            return;
        },
    };
    let ghost src = vstd::utf8::encode_utf8(source@);
    locate_in_view(&mut job.root, &path, source.as_str());
    let n = job.views.len();
    let mut i: usize = 0;
    while i < n
        invariant
            n == job.views@.len(),
            n == old(job).views@.len(),
            i <= n,
            job_lines_fit(*old(job)),
            old(job).relative_template_path == Some(path),
            old(job).template_source == Some(source),
            src == vstd::utf8::encode_utf8(source@),
            view_located(old(job).root, job.root, path, src),
            forall|j: int| 0 <= j < i ==> view_located(old(job).views@[j], #[trigger] job.views@[j], path, src),
            forall|j: int| i <= j < n ==> #[trigger] job.views@[j] == old(job).views@[j],
            job.consts == old(job).consts,
            job.diagnostics == old(job).diagnostics,
            job.next_xref == old(job).next_xref,
            job.compatibility_mode == old(job).compatibility_mode,
            job.mode == old(job).mode,
            job.enable_debug_locations == old(job).enable_debug_locations,
            job.relative_template_path == old(job).relative_template_path,
            job.template_source == old(job).template_source,
        decreases n - i,
    {
        locate_in_view(&mut job.views[i], &path, source.as_str());
        i = i + 1;
    }
}

} // verus!
