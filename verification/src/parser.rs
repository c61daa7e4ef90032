//! The one-pass parser of F06 files: it takes lines one at a time, learns
//! the solver and the subcase, collects warnings, fatal errors and block
//! headers, and hands data lines to the decoder of the current block.

use vstd::prelude::*;

use crate::blocks::{is_abnormal, FinalBlock, LineResponse};
use crate::blocktypes::{all_block_types, block_headers, BlockType};
use crate::decoders::{block_col_seq, block_width, consume_effect, OpaqueDecoder};
use crate::f06file::F06File;
use crate::flavour::{all_solvers, solver_name, Flavour, SolType, Solver};
use crate::headers::{check_header, header_text, PotentialHeader};
use crate::indexing::NasIndex;
use crate::text::{chars_of, contains_str, seq_contains, string_of};
use crate::util::{field_ints, line_breakdown, line_fields, nth};

verus! {

/// What the parser answers a line with.
#[derive(Clone, Debug, PartialEq, Eq, Structural)]
#[non_exhaustive]
pub enum ParserResponse {
    /// The line was useless.
    Useless,
    /// The line told which solver wrote the file.
    Solver(Solver),
    /// The line told the current subcase.
    Subcase(usize),
    /// The line held a warning.
    Warning,
    /// The line held a fatal error.
    Fatal,
    /// The line told which kind of solution the file holds.
    SolType(SolType),
    /// The line held part of a block header, not yet known to belong to a
    /// known block.
    BlockHeader,
    /// The line told the parser to start decoding a block.
    BeginBlock(BlockType),
    /// The line was passed to a block decoder.
    PassedToDecoder(BlockType, LineResponse),
    /// The line began a block, but no decoder was started because the
    /// solver is not known yet.
    BeginningWithoutSolver,
    /// The line ended the header of a block that is not known.
    PotentialHeader,
}

/// The first solver (in order) whose name a line holds, from position `i`
/// of the list of solvers on.
pub open spec fn solver_in_from(line: Seq<char>, i: int) -> Option<Solver>
    decreases all_solvers().len() - i,
{
    if i < 0 || i >= all_solvers().len() {
        None
    } else if seq_contains(line, solver_name(all_solvers()[i])) {
        Some(all_solvers()[i])
    } else {
        solver_in_from(line, i + 1)
    }
}

/// The subcase a line announces: the first integer of a line that holds
/// `OUTPUT FOR SUBCASE`.
pub open spec fn subcase_in(line: Seq<char>) -> Option<usize> {
    if seq_contains(line, "OUTPUT FOR SUBCASE"@) {
        match nth(field_ints(line_fields(line)), 0) {
            Some(x) => Some(x as usize),
            None => None,
        }
    } else {
        None
    }
}

/// The parts of a header, joined by single spaces.
pub open spec fn joined(parts: Seq<Seq<char>>) -> Seq<char>
    decreases parts.len(),
{
    if parts.len() == 0 {
        Seq::empty()
    } else if parts.len() == 1 {
        parts[0]
    } else {
        joined(parts.drop_last()) + seq![' '] + parts.last()
    }
}

/// Does a header name a block type (does it hold one of its known headers)?
pub open spec fn names_block(name: Seq<char>, bt: BlockType) -> bool {
    exists|i: int| 0 <= i < block_headers(bt).len() && seq_contains(name, #[trigger] block_headers(bt)[i])
}

/// The block types, among the first `n` in canonical order, that a header
/// names.
pub open spec fn named_types(name: Seq<char>, n: int) -> Seq<BlockType>
    decreases n,
{
    if n <= 0 {
        Seq::empty()
    } else {
        let r = named_types(name, n - 1);
        if names_block(name, all_block_types()[n - 1]) { r.push(all_block_types()[n - 1]) } else { r }
    }
}

/// The block types a header names, in canonical order.
pub open spec fn candidates(name: Seq<char>) -> Seq<BlockType> {
    named_types(name, all_block_types().len() as int)
}

/// The block a decoder gives when it is finished, for a subcase.
pub open spec fn finalised_from(fb: FinalBlock, d: OpaqueDecoder, subcase: usize) -> bool {
    &&& fb.wf()
    &&& fb.block_type == d.block_type
    &&& fb.subcase == subcase
    &&& fb.row_indexes@.dom() == d.rows().dom()
    &&& forall|row: NasIndex, i: int|
        0 <= i < block_width(d.block_type) ==> #[trigger] fb.value_at(row, block_col_seq(d.block_type)[i]) == (if d.rows().contains_key(
            row,
        ) {
            Some(d.rows()[row][i])
        } else {
            None
        })
    &&& forall|row: NasIndex, c: NasIndex| !block_col_seq(d.block_type).contains(c) ==> #[trigger] fb.value_at(row, c) is None
}

/// The file `f1` is `f0` with one more block.
pub open spec fn block_added(f0: F06File, f1: F06File, fb: FinalBlock) -> bool {
    &&& f1.wf()
    &&& f1.blocks_view() == f0.blocks_view().insert(
        fb.bref(),
        if f0.blocks_view().contains_key(fb.bref()) {
            f0.blocks_view()[fb.bref()].push(fb)
        } else {
            seq![fb]
        },
    )
    &&& f1.filename == f0.filename
    &&& f1.flavour == f0.flavour
    &&& f1.warnings == f0.warnings
    &&& f1.fatal_errors == f0.fatal_errors
    &&& f1.potential_headers == f0.potential_headers
}

/// What flushing a decoder does to the file: a decoder that holds rows adds
/// its block; otherwise nothing changes.
pub open spec fn flush_effect(dec: Option<OpaqueDecoder>, subcase: usize, f0: F06File, f1: F06File) -> bool {
    match dec {
        Some(d) => if exists|k: NasIndex| #[trigger] d.rows().contains_key(k) {
            exists|fb: FinalBlock| finalised_from(fb, d, subcase) && #[trigger] block_added(f0, f1, fb)
        } else {
            f1 == f0
        },
        None => f1 == f0,
    }
}

/// The one-pass parser of F06 files: it does not care where lines come from.
pub struct OnePassParser {
    /// The file being built.
    file: F06File,
    /// The current subcase.
    subcase: usize,
    /// The decoder of the block being read, if any.
    current_decoder: Option<OpaqueDecoder>,
    /// The number of lines consumed.
    total_lines: usize,
    /// The line of the last block beginning.
    last_block_start: usize,
    /// The parts of the block header being read.
    header_accumulator: Vec<Vec<char>>,
}

impl OnePassParser {
    /// The file being built.
    pub closed spec fn file_of(&self) -> F06File {
        self.file
    }

    /// The current subcase.
    pub closed spec fn subcase_of(&self) -> usize {
        self.subcase
    }

    /// The decoder of the block being read, if any.
    pub closed spec fn decoder_of(&self) -> Option<OpaqueDecoder> {
        self.current_decoder
    }

    /// The number of lines consumed.
    pub closed spec fn lines_of(&self) -> usize {
        self.total_lines
    }

    /// The parts of the block header being read.
    pub closed spec fn header_parts(&self) -> Seq<Seq<char>> {
        self.header_accumulator@.map_values(|p: Vec<char>| p@)
    }

    /// The file and the decoder are well formed; the messages and headers of
    /// the file come from lines already consumed, before the header being
    /// read.
    pub closed spec fn wf(&self) -> bool {
        &&& self.file.wf()
        &&& (self.current_decoder matches Some(d) ==> d.wf())
        &&& self.header_accumulator@.len() <= self.total_lines
        &&& forall|i: int| 0 <= i < self.file.warnings@.len() ==> (#[trigger] self.file.warnings@[i]).0 <= self.total_lines
        &&& forall|i: int| 0 <= i < self.file.fatal_errors@.len() ==> (#[trigger] self.file.fatal_errors@[i]).0 <= self.total_lines
        &&& forall|i: int|
            0 <= i < self.file.potential_headers@.len() ==> (#[trigger] self.file.potential_headers@[i]).start
                + self.file.potential_headers@[i].span <= self.total_lines + 1 - self.header_accumulator@.len()
    }

    /// A new parser.
    pub fn new() -> (r: OnePassParser)
        ensures
            r.wf(),
            r.subcase_of() == 1,
            r.decoder_of() is None,
            r.lines_of() == 0,
            r.header_parts().len() == 0,
            r.file_of().blocks@.len() == 0,
            r.file_of().warnings@.len() == 0,
            r.file_of().fatal_errors@.len() == 0,
            r.file_of().potential_headers@.len() == 0,
            r.file_of().flavour.solver is None,
            r.file_of().flavour.soltype is None,
    {
        let r = OnePassParser {
            file: F06File::new(),
            subcase: 1,
            current_decoder: None,
            total_lines: 0,
            last_block_start: 0,
            header_accumulator: Vec::new(),
        };
        assert(r.header_parts() =~= Seq::<Seq<char>>::empty());
        r
    }

    /// Hints the parser about the flavour: what it does not know yet, it
    /// takes from the hint.
    pub fn hint_flavour(&mut self, flavour: Flavour)
        requires
            old(self).wf(),
        ensures
            final(self).wf(),
            final(self).file_of().flavour.solver == (if old(self).file_of().flavour.solver is Some {
                old(self).file_of().flavour.solver
            } else {
                flavour.solver
            }),
            final(self).file_of().flavour.soltype == (if old(self).file_of().flavour.soltype is Some {
                old(self).file_of().flavour.soltype
            } else {
                flavour.soltype
            }),
            final(self).file_of().blocks == old(self).file_of().blocks,
            final(self).subcase_of() == old(self).subcase_of(),
            final(self).decoder_of() == old(self).decoder_of(),
            final(self).lines_of() == old(self).lines_of(),
            final(self).header_parts() == old(self).header_parts(),
    {
        if self.file.flavour.solver.is_none() {
            self.file.flavour.solver = flavour.solver;
        }
        if self.file.flavour.soltype.is_none() {
            self.file.flavour.soltype = flavour.soltype;
        }
    }

    /// The solver a line names, while the solver is not known.
    fn detect_solver(&self, line: &Vec<char>) -> (r: Option<Solver>)
        ensures
            r == (if self.file.flavour.solver is None { solver_in_from(line@, 0) } else { None }),
    {
        if self.file.flavour.solver.is_some() {
            return None;
        }
        let all = Solver::all();
        let mut i: usize = 0;
        while i < all.len()
            invariant
                all@ == all_solvers(),
                self.file.flavour.solver is None,
                i <= all@.len(),
                solver_in_from(line@, 0) == solver_in_from(line@, i as int),
            decreases all.len() - i,
        {
            if contains_str(line, all[i].name()) {
                return Some(all[i]);
            }
            i = i + 1;
        }
        None
    }

    /// The subcase a line announces, if any.
    fn detect_subcase(&self, line: &Vec<char>) -> (r: Option<usize>)
        ensures
            r == subcase_in(line@),
    {
        if contains_str(line, "OUTPUT FOR SUBCASE") {
            let fs = line_breakdown(line);
            match crate::util::nth_integer(&fs, 0) {
                Some(x) => Some(x as usize),
                None => None,
            }
        } else {
            None
        }
    }

    /// Finishes the current decoder, putting its block in the file if it
    /// holds rows.
    fn flush_decoder(&mut self)
        requires
            old(self).wf(),
        ensures
            final(self).wf(),
            flush_effect(old(self).current_decoder, old(self).subcase, old(self).file, final(self).file),
            final(self).current_decoder is None,
            final(self).subcase == old(self).subcase,
            final(self).total_lines == old(self).total_lines,
            final(self).header_accumulator == old(self).header_accumulator,
    {
        let dec = self.current_decoder.take();
        match dec {
            Some(d) => {
                let ghost dd = d;
                let fb = d.finalise(self.subcase);
                if !fb.row_indexes.is_empty() {
                    let ghost f0 = self.file;
                    self.file.insert_block(fb);
                    proof {
                        assert(exists|k: NasIndex| #[trigger] dd.rows().contains_key(k)) by {
                            let e = fb.row_indexes.entries@[0];
                            crate::indexmap::lemma_sorted_unique(fb.row_indexes.entries@, 0);
                            assert(dd.rows().contains_key(e.0));
                        }
                        assert(finalised_from(fb, dd, old(self).subcase));
                        assert(block_added(f0, self.file, fb));
                    }
                } else {
                    proof {
                        assert forall|k: NasIndex| !#[trigger] dd.rows().contains_key(k) by {
                            if dd.rows().contains_key(k) {
                                assert(fb.row_indexes@.contains_key(k));
                            }
                        }
                    }
                }
            },
            None => {},
        }
    }

    /// Takes the parts of the block header being read, joined by spaces,
    /// with their number.
    fn flush_header(&mut self) -> (r: Option<(Vec<char>, usize)>)
        requires
            old(self).wf(),
        ensures
            final(self).wf(),
            final(self).file == old(self).file,
            final(self).subcase == old(self).subcase,
            final(self).current_decoder == old(self).current_decoder,
            final(self).total_lines == old(self).total_lines,
            final(self).header_parts().len() == 0,
            r is Some == (old(self).header_parts().len() > 0),
            r matches Some((t, n)) ==> t@ == joined(old(self).header_parts()) && n == old(self).header_parts().len(),
    {
        let n = self.header_accumulator.len();
        if n == 0 {
            return None;
        }
        let ghost parts = self.header_parts();
        let mut t: Vec<char> = Vec::new();
        let mut i: usize = 0;
        while i < n
            invariant
                n == self.header_accumulator@.len(),
                parts == self.header_parts(),
                0 < n,
                i <= n,
                i > 0 ==> t@ == joined(parts.take(i as int)),
                i == 0 ==> t@.len() == 0,
            decreases n - i,
        {
            let ghost before = t@;
            if i > 0 {
                t.push(' ');
            }
            let p = &self.header_accumulator[i];
            let mut j: usize = 0;
            let ghost mid = t@;
            while j < p.len()
                invariant
                    j <= p@.len(),
                    t@ == mid + p@.take(j as int),
                decreases p.len() - j,
            {
                t.push(p[j]);
                j = j + 1;
                assert(t@ =~= mid + p@.take(j as int));
            }
            proof {
                assert(p@.take(j as int) =~= p@);
                assert(parts[i as int] == p@);
                assert(parts.take(i + 1).drop_last() =~= parts.take(i as int));
                if i == 0 {
                    assert(t@ =~= parts.take(1)[0]);
                } else {
                    assert(t@ =~= joined(parts.take(i as int)) + seq![' '] + parts[i as int]);
                }
            }
            i = i + 1;
        }
        proof {
            assert(parts.take(n as int) =~= parts);
        }
        self.header_accumulator = Vec::new();
        proof {
            assert(self.header_parts() =~= Seq::<Seq<char>>::empty());
        }
        Some((t, n))
    }
}


/// Lists the block types a header names, in canonical order.
fn block_candidates(name: &Vec<char>) -> (r: Vec<BlockType>)
    ensures
        r@ == candidates(name@),
{
    let all = BlockType::all();
    let mut r: Vec<BlockType> = Vec::new();
    let mut t: usize = 0;
    while t < all.len()
        invariant
            all@ == all_block_types(),
            t <= all@.len(),
            r@ == named_types(name@, t as int),
        decreases all.len() - t,
    {
        let hs = all[t].headers();
        let mut found = false;
        let mut i: usize = 0;
        while i < hs.len()
            invariant
                hs@.len() == block_headers(all@[t as int]).len(),
                forall|k: int| 0 <= k < hs@.len() ==> (#[trigger] hs@[k])@ == block_headers(all@[t as int])[k],
                i <= hs@.len(),
                found == exists|k: int| 0 <= k < i && seq_contains(name@, #[trigger] block_headers(all@[t as int])[k]),
            decreases hs.len() - i,
        {
            if contains_str(name, hs[i]) {
                found = true;
            }
            i = i + 1;
        }
        if found {
            r.push(all[t]);
        }
        t = t + 1;
    }
    r
}

/// A potential header for the lines of a header just read: it ends on the
/// line before `line`, spans `n` lines and holds `text`.
pub open spec fn header_before(h: PotentialHeader, line: int, n: int, text: Seq<char>) -> bool {
    h.start == line - n && h.span == n && h.text@ == text
}

/// What a parser does with a line that is neither a solver, subcase,
/// warning or fatal line nor part of a header, from the state after
/// flushing (file `f`, no header parts), given the decoder `dec` it then
/// holds: passes the line to it, flushing it when the response is abnormal.
pub open spec fn pass_effect(
    dec: Option<OpaqueDecoder>,
    subcase: usize,
    line: Seq<char>,
    f: F06File,
    n: OnePassParser,
    r: ParserResponse,
) -> bool {
    match dec {
        None => r == ParserResponse::Useless && n.file_of() == f && n.decoder_of() is None,
        Some(d) => exists|d2: OpaqueDecoder, lr: LineResponse|
            #![trigger consume_effect(d, line, d2, lr)]
            d2.wf() && consume_effect(d, line, d2, lr) && r == ParserResponse::PassedToDecoder(d.block_type, lr) && if is_abnormal(lr) {
                flush_effect(Some(d2), subcase, f, n.file_of()) && n.decoder_of() is None
            } else {
                n.file_of() == f && n.decoder_of() == Some(d2)
            },
    }
}

/// What a parser does with a line that ends a header of `k` parts, named
/// `name`, from the state after flushing the decoder (file `f`): an unknown
/// block leaves a potential header; a known one starts its decoder (when the
/// solver is known and the header is good), which gets the line.
pub open spec fn header_end_effect(
    name: Seq<char>,
    k: int,
    t: int,
    solver_known: bool,
    flavour: Flavour,
    subcase: usize,
    line: Seq<char>,
    f: F06File,
    n: OnePassParser,
    r: ParserResponse,
) -> bool {
    let cs = candidates(name);
    if cs.len() == 0 {
        &&& r == ParserResponse::PotentialHeader
        &&& n.decoder_of() is None
        &&& exists|h: PotentialHeader|
            header_before(h, t, k, name) && #[trigger] n.file_of().potential_headers@ == f.potential_headers@.push(h)
        &&& n.file_of().blocks == f.blocks
        &&& n.file_of().flavour == f.flavour
        &&& n.file_of().warnings == f.warnings
        &&& n.file_of().fatal_errors == f.fatal_errors
        &&& n.file_of().filename == f.filename
    } else if cs.len() == 1 {
        if !solver_known {
            r == ParserResponse::BeginningWithoutSolver && n.decoder_of() is None && n.file_of() == f
        } else if !crate::decoders::header_ok(cs[0], name) {
            &&& r == ParserResponse::PotentialHeader
            &&& n.decoder_of() is None
            &&& exists|h: PotentialHeader|
                header_before(h, t, k, name) && #[trigger] n.file_of().potential_headers@ == f.potential_headers@.push(h)
            &&& n.file_of().blocks == f.blocks
            &&& n.file_of().flavour == f.flavour
            &&& n.file_of().warnings == f.warnings
            &&& n.file_of().fatal_errors == f.fatal_errors
            &&& n.file_of().filename == f.filename
        } else {
            exists|d: OpaqueDecoder|
                #![trigger pass_effect(Some(d), subcase, line, f, n, r)]
                d.wf() && d.block_type == cs[0] && d.flavour == flavour && d.rows() == Map::<NasIndex, Seq<crate::numbers::NumberView>>::empty()
                    && d.etype == (if crate::decoders::header_sets_etype(cs[0]) {
                    nth(crate::util::field_etypes(line_fields(name)), 0)
                } else {
                    None
                }) && d.gpref is None && d.cur_sided is None && d.cur_point is None && !d.has_grid_id && d.eid is None
                    && d.bar_first is None && pass_effect(Some(d), subcase, line, f, n, r)
        }
    } else {
        r == ParserResponse::Useless && n.decoder_of() is None && n.file_of() == f
    }
}

/// What consuming a line does to a parser `p`, giving `n` and the response
/// `r`: a line naming the solver (while it is unknown) sets it; a subcase
/// line sets the subcase (finishing the current block when it changes); a
/// warning or fatal line is recorded; part of a block header is kept; any
/// other line ends the header being read, if any, and is passed to the
/// current decoder.
pub open spec fn consume_spec(p: OnePassParser, line: Seq<char>, n: OnePassParser, r: ParserResponse) -> bool {
    let t = p.lines_of() + 1;
    let solver_known = p.file_of().flavour.solver is Some;
    &&& n.lines_of() == t
    &&& if !solver_known && solver_in_from(line, 0) is Some {
        &&& r == ParserResponse::Solver(solver_in_from(line, 0).unwrap())
        &&& n.file_of().flavour.solver == solver_in_from(line, 0)
        &&& n.file_of().flavour.soltype == p.file_of().flavour.soltype
        &&& n.file_of().blocks == p.file_of().blocks
        &&& n.file_of().warnings == p.file_of().warnings
        &&& n.file_of().fatal_errors == p.file_of().fatal_errors
        &&& n.file_of().potential_headers == p.file_of().potential_headers
        &&& n.file_of().filename == p.file_of().filename
        &&& n.subcase_of() == p.subcase_of()
        &&& n.decoder_of() == p.decoder_of()
        &&& n.header_parts() == p.header_parts()
    } else if subcase_in(line) is Some {
        let sc = subcase_in(line).unwrap();
        &&& r == ParserResponse::Subcase(sc)
        &&& n.subcase_of() == sc
        &&& n.header_parts().len() == 0
        &&& if sc != p.subcase_of() {
            flush_effect(p.decoder_of(), p.subcase_of(), p.file_of(), n.file_of()) && n.decoder_of() is None
        } else {
            n.file_of() == p.file_of() && n.decoder_of() == p.decoder_of()
        }
    } else if seq_contains(line, "WARNING"@) || seq_contains(line, "FATAL"@) {
        let f0 = p.file_of();
        let f1 = n.file_of();
        &&& n.subcase_of() == p.subcase_of()
        &&& n.decoder_of() == p.decoder_of()
        &&& n.header_parts().len() == 0
        &&& f1.blocks == f0.blocks
        &&& f1.flavour == f0.flavour
        &&& f1.potential_headers == f0.potential_headers
        &&& f1.filename == f0.filename
        &&& if seq_contains(line, "WARNING"@) {
            &&& r == ParserResponse::Warning
            &&& f1.warnings@.len() == f0.warnings@.len() + 1
            &&& f1.warnings@.drop_last() == f0.warnings@
            &&& f1.warnings@.last().0 == t
            &&& f1.warnings@.last().1@ == line
            &&& f1.fatal_errors == f0.fatal_errors
        } else {
            &&& r == ParserResponse::Fatal
            &&& f1.fatal_errors@.len() == f0.fatal_errors@.len() + 1
            &&& f1.fatal_errors@.drop_last() == f0.fatal_errors@
            &&& f1.fatal_errors@.last().0 == t
            &&& f1.fatal_errors@.last().1@ == line
            &&& f1.warnings == f0.warnings
        }
    } else if header_text(line) is Some {
        &&& r == ParserResponse::BlockHeader
        &&& n.header_parts() == p.header_parts().push(header_text(line).unwrap())
        &&& n.file_of() == p.file_of()
        &&& n.subcase_of() == p.subcase_of()
        &&& n.decoder_of() == p.decoder_of()
    } else {
        &&& n.subcase_of() == p.subcase_of()
        &&& n.header_parts().len() == 0
        &&& if p.header_parts().len() > 0 {
            exists|f: F06File|
                #![trigger flush_effect(p.decoder_of(), p.subcase_of(), p.file_of(), f)]
                flush_effect(p.decoder_of(), p.subcase_of(), p.file_of(), f) && header_end_effect(
                    joined(p.header_parts()),
                    p.header_parts().len() as int,
                    t,
                    solver_known,
                    p.file_of().flavour,
                    p.subcase_of(),
                    line,
                    f,
                    n,
                    r,
                )
        } else {
            pass_effect(p.decoder_of(), p.subcase_of(), line, p.file_of(), n, r)
        }
    }
}

/// Once the solver is known, no line changes it and no line is answered as
/// naming a solver.
pub proof fn law_solver_kept(p: OnePassParser, line: Seq<char>, n: OnePassParser, r: ParserResponse)
    requires
        consume_spec(p, line, n, r),
        p.file_of().flavour.solver is Some,
    ensures
        !(r is Solver),
        n.file_of().flavour == p.file_of().flavour,
{
    if !(subcase_in(line) is Some) && !(seq_contains(line, "WARNING"@) || seq_contains(line, "FATAL"@))
        && !(header_text(line) is Some) && p.header_parts().len() > 0 {
        let f = choose|f: F06File|
            #![trigger flush_effect(p.decoder_of(), p.subcase_of(), p.file_of(), f)]
            flush_effect(p.decoder_of(), p.subcase_of(), p.file_of(), f) && header_end_effect(
                joined(p.header_parts()),
                p.header_parts().len() as int,
                p.lines_of() + 1,
                true,
                p.file_of().flavour,
                p.subcase_of(),
                line,
                f,
                n,
                r,
            );
        let cs = candidates(joined(p.header_parts()));
        if cs.len() == 1 && crate::decoders::header_ok(cs[0], joined(p.header_parts())) {
            let d = choose|d: OpaqueDecoder|
                #![trigger pass_effect(Some(d), p.subcase_of(), line, f, n, r)]
                d.wf() && d.block_type == cs[0] && d.flavour == p.file_of().flavour && d.rows() == Map::<
                    NasIndex,
                    Seq<crate::numbers::NumberView>,
                >::empty() && d.etype == (if crate::decoders::header_sets_etype(cs[0]) {
                    nth(crate::util::field_etypes(line_fields(joined(p.header_parts()))), 0)
                } else {
                    None
                }) && d.gpref is None && d.cur_sided is None && d.cur_point is None && !d.has_grid_id && d.eid is None
                    && d.bar_first is None && pass_effect(Some(d), p.subcase_of(), line, f, n, r);
        }
    }
}

impl OnePassParser {
    /// Passes a line to the current decoder, if any, flushing it when it
    /// answers abnormally.
    fn pass_to_decoder(&mut self, line: &Vec<char>) -> (r: ParserResponse)
        requires
            old(self).wf(),
        ensures
            final(self).wf(),
            pass_effect(old(self).current_decoder, old(self).subcase, line@, old(self).file, *final(self), r),
            final(self).subcase == old(self).subcase,
            final(self).total_lines == old(self).total_lines,
            final(self).header_accumulator == old(self).header_accumulator,
    {
        let dec = self.current_decoder.take();
        match dec {
            Some(d) => {
                let ghost d0 = d;
                let mut d = d;
                let resp = d.consume(line);
                let bt = d.block_type();
                let ghost d2 = d;
                self.current_decoder = Some(d);
                if resp.abnormal() {
                    self.flush_decoder();
                }
                proof {
                    assert(consume_effect(d0, line@, d2, resp));
                }
                ParserResponse::PassedToDecoder(bt, resp)
            },
            None => ParserResponse::Useless,
        }
    }

    /// Records a potential header for the header just read.
    fn push_potential_header(&mut self, text: Vec<char>, k: usize)
        requires
            old(self).wf(),
            old(self).header_accumulator@.len() == 0,
            0 < k <= old(self).total_lines,
            forall|i: int|
                0 <= i < old(self).file.potential_headers@.len() ==> (#[trigger] old(self).file.potential_headers@[i]).start
                    + old(self).file.potential_headers@[i].span <= old(self).total_lines - k,
        ensures
            final(self).wf(),
            exists|h: PotentialHeader|
                header_before(h, old(self).total_lines as int, k as int, text@) && #[trigger] final(self).file.potential_headers@
                    == old(self).file.potential_headers@.push(h),
            final(self).file.blocks == old(self).file.blocks,
            final(self).file.flavour == old(self).file.flavour,
            final(self).file.warnings == old(self).file.warnings,
            final(self).file.fatal_errors == old(self).file.fatal_errors,
            final(self).file.filename == old(self).file.filename,
            final(self).current_decoder == old(self).current_decoder,
            final(self).subcase == old(self).subcase,
            final(self).total_lines == old(self).total_lines,
            final(self).header_accumulator == old(self).header_accumulator,
    {
        let h = PotentialHeader { start: self.total_lines - k, span: k, text: string_of(text.as_slice()) };
        let ghost hh = h;
        let ghost s = self.file.potential_headers@;
        self.file.potential_headers.push(h);
        proof {
            let t = self.file.potential_headers@;
            assert(t == s.push(hh));
            assert forall|i: int, j: int| 0 <= i < j < t.len() implies (#[trigger] t[i]).start < (#[trigger] t[j]).start by {
                if j < s.len() {
                    assert(t[i] == s[i] && t[j] == s[j]);
                } else {
                    assert(t[i] == s[i]);
                }
            }
            assert forall|i: int| 0 <= i < t.len() implies (#[trigger] t[i]).span > 0 && t[i].start + t[i].span <= usize::MAX by {
                if i < s.len() {
                    assert(t[i] == s[i]);
                }
            }
            assert(header_before(hh, old(self).total_lines as int, k as int, text@));
        }
    }
}


impl OnePassParser {
    /// Consumes a line into the parser.
    pub fn consume(&mut self, line: &str) -> (r: ParserResponse)
        requires
            old(self).wf(),
            old(self).lines_of() < usize::MAX,
        ensures
            final(self).wf(),
            consume_spec(*old(self), line@, *final(self), r),
    {
        let line = chars_of(line);
        self.total_lines = self.total_lines + 1;
        // first, learn what we can of the flavour from the line
        if let Some(solver) = self.detect_solver(&line) {
            self.file.flavour.solver = Some(solver);
            return ParserResponse::Solver(solver);
        }
        // then check for a subcase change
        if let Some(subcase) = self.detect_subcase(&line) {
            if self.subcase != subcase {
                // a subcase change definitely ends the block
                self.flush_decoder();
                self.subcase = subcase;
            }
            self.flush_header();
            return ParserResponse::Subcase(subcase);
        }
        // warnings and fatal errors
        if contains_str(&line, "WARNING") {
            let ghost s = self.file.warnings@;
            self.file.warnings.push((self.total_lines, string_of(line.as_slice())));
            proof {
                let w = self.file.warnings@;
                assert(w.drop_last() =~= s);
                assert forall|i: int, j: int| 0 <= i < j < w.len() implies (#[trigger] w[i]).0 < (#[trigger] w[j]).0 by {
                    if j < s.len() {
                        assert(w[i] == s[i] && w[j] == s[j]);
                    } else {
                        assert(w[i] == s[i]);
                    }
                }
            }
            self.flush_header();
            return ParserResponse::Warning;
        }
        if contains_str(&line, "FATAL") {
            let ghost s = self.file.fatal_errors@;
            self.file.fatal_errors.push((self.total_lines, string_of(line.as_slice())));
            proof {
                let w = self.file.fatal_errors@;
                assert(w.drop_last() =~= s);
                assert forall|i: int, j: int| 0 <= i < j < w.len() implies (#[trigger] w[i]).0 < (#[trigger] w[j]).0 by {
                    if j < s.len() {
                        assert(w[i] == s[i] && w[j] == s[j]);
                    } else {
                        assert(w[i] == s[i]);
                    }
                }
            }
            self.flush_header();
            return ParserResponse::Fatal;
        }
        // a part of a block header?
        if let Some(unspaced) = check_header(&line) {
            let ghost before = self.header_parts();
            self.header_accumulator.push(unspaced);
            proof {
                assert(self.header_parts() =~= before.push(header_text(line@).unwrap()));
            }
            return ParserResponse::BlockHeader;
        }
        let ghost p0 = *self;
        match self.flush_header() {
            Some((full_name, num_lines)) => {
                // a header was being read: it ends here
                self.flush_decoder();
                let ghost f = self.file;
                let cands = block_candidates(&full_name);
                let r = if cands.len() == 0 {
                    self.push_potential_header(full_name, num_lines);
                    ParserResponse::PotentialHeader
                } else if cands.len() == 1 {
                    let bt = cands[0];
                    if self.file.flavour.solver.is_none() {
                        ParserResponse::BeginningWithoutSolver
                    } else {
                        let mut dec = bt.init_decoder(self.file.flavour);
                        if dec.good_header(&full_name) {
                            self.last_block_start = self.total_lines;
                            let ghost d = dec;
                            self.current_decoder = Some(dec);
                            let r = self.pass_to_decoder(&line);
                            proof {
                                assert(pass_effect(Some(d), p0.subcase, line@, f, *self, r));
                            }
                            r
                        } else {
                            self.push_potential_header(full_name, num_lines);
                            ParserResponse::PotentialHeader
                        }
                    }
                } else {
                    ParserResponse::Useless
                };
                proof {
                    assert(flush_effect(old(self).decoder_of(), old(self).subcase_of(), old(self).file_of(), f));
                    assert(header_end_effect(
                        joined(old(self).header_parts()),
                        old(self).header_parts().len() as int,
                        self.total_lines as int,
                        old(self).file.flavour.solver is Some,
                        old(self).file.flavour,
                        old(self).subcase,
                        line@,
                        f,
                        *self,
                        r,
                    ));
                }
                r
            },
            None => {
                return self.pass_to_decoder(&line);
            },
        }
    }

    /// Finishes up and returns the file.
    pub fn finish(self) -> (r: F06File)
        requires
            self.wf(),
        ensures
            r.wf(),
            flush_effect(self.decoder_of(), self.subcase_of(), self.file_of(), r),
    {
        let mut me = self;
        me.flush_decoder();
        me.file
    }
}

} // verus!
