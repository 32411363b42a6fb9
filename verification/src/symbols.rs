//! The symbol-parsing walk over `/proc/self/maps`: which regions become
//! images, which files are parsed and how, and the two layers of
//! deduplication (by mapping base, and by device and inode) that keep an
//! image from being parsed twice. Reading the maps file and the images is
//! the caller's business: it hands each line in and acts on the plan that
//! comes back.

use vstd::prelude::*;
use std::collections::HashSet;
use crate::maps::MemoryMapDesc;
use crate::maps::spec_line_readable;
use crate::maps::spec_line_exec;
use crate::maps::spec_line_empty_file;
use crate::maps::spec_line_addr;
use crate::maps::spec_line_end;
use crate::maps::spec_line_offs;
use crate::maps::spec_line_inode;
use crate::maps::spec_line_key;
use crate::maps::spec_file_tok;

verus! {

/// How many images the registry may hold.
pub const MAX_CODE_CACHE_ARRAY: u32 = 2048;

/// How a planned image gets its symbols.
pub enum RegionKind {
    /// Parse the backing file, its program headers too where the adjusted
    /// base still lies in mapped memory.
    ParseFile { header_base: u64, parse_headers: bool },
    /// Parse straight from memory (the vdso).
    ParseMem,
    /// Record the image's name and bounds only.
    NameOnly,
}

/// One planned image.
pub struct ImagePlan {
    pub base: u64,
    pub end: u64,
    pub file: Vec<u8>,
    pub kind: RegionKind,
}

/// What one maps line asks for.
pub enum RegionPlan {
    Skip,
    Stop,
    Image(ImagePlan),
}

/// The walk's mathematical state.
pub ghost struct WalkModel {
    pub bases: Set<u64>,
    pub inodes: Set<u64>,
    pub count: int,
    pub image_end: u64,
    pub last_readable_base: u64,
}

/// The plan's mathematical shape.
pub ghost enum KindModel {
    ParseFile { header_base: u64, parse_headers: bool },
    ParseMem,
    NameOnly,
}

pub ghost enum PlanModel {
    Skip,
    Stop,
    Image { base: u64, end: u64, file: Seq<u8>, kind: KindModel },
}

/// The bytes of `[vdso]`.
pub open spec fn spec_vdso_name() -> Seq<u8> {
    seq![91u8, 118u8, 100u8, 115u8, 111u8, 93u8]
}

/// One step of the walk: an unreadable or anonymous line changes nothing;
/// a readable one moves the region cursor; an executable one not yet seen
/// by base becomes an image (unless the registry is full), parsed from its
/// file the first time its device and inode pair appears, from memory for
/// the vdso, and by name alone otherwise.
pub open spec fn spec_step(m: WalkModel, line: Seq<u8>) -> (WalkModel, PlanModel) {
    if !spec_line_readable(line) || spec_line_empty_file(line) {
        (m, PlanModel::Skip)
    } else {
        {
            let base = spec_line_addr(line);
            let end = spec_line_end(line);
            let m1 = WalkModel {
                image_end: end,
                last_readable_base: if base == m.image_end {
                    base
                } else {
                    m.last_readable_base
                },
                ..m
            };
            if !spec_line_exec(line) {
                (m1, PlanModel::Skip)
            } else if m1.bases.contains(base) {
                (m1, PlanModel::Skip)
            } else {
                {
                    let m2 = WalkModel { bases: m1.bases.insert(base), ..m1 };
                    if m2.count >= MAX_CODE_CACHE_ARRAY {
                        (m2, PlanModel::Stop)
                    } else {
                        {
                            let inode = spec_line_inode(line);
                            let key = spec_line_key(line);
                            let header_base = vstd::wrapping::u64_specs::wrapping_sub(
                                base,
                                spec_line_offs(line),
                            );
                            let kind = if inode != 0 {
                                if !m2.inodes.contains(key) {
                                    KindModel::ParseFile {
                                        header_base,
                                        parse_headers: header_base >= m2.last_readable_base,
                                    }
                                } else {
                                    KindModel::NameOnly
                                }
                            } else if spec_file_tok(line) == spec_vdso_name() {
                                KindModel::ParseMem
                            } else {
                                KindModel::NameOnly
                            };
                            let m3 = WalkModel {
                                inodes: if inode != 0 {
                                    m2.inodes.insert(key)
                                } else {
                                    m2.inodes
                                },
                                count: m2.count + 1,
                                ..m2
                            };
                            (
                                m3,
                                PlanModel::Image {
                                    base,
                                    end,
                                    file: spec_file_tok(line),
                                    kind,
                                },
                            )
                        }
                    }
                }
            }
        }
    }
}

/// The state a whole pass over the lines leaves.
pub open spec fn spec_run(m: WalkModel, lines: Seq<Seq<u8>>) -> WalkModel
    decreases lines.len(),
{
    if lines.len() == 0 {
        m
    } else {
        spec_run(spec_step(m, lines[0]).0, lines.drop_first())
    }
}

/// How many images a pass over the lines plans.
pub open spec fn spec_run_images(m: WalkModel, lines: Seq<Seq<u8>>) -> int
    decreases lines.len(),
{
    if lines.len() == 0 {
        0
    } else {
        {
            let (m1, p) = spec_step(m, lines[0]);
            (match p {
                PlanModel::Image { .. } => 1int,
                _ => 0int,
            }) + spec_run_images(m1, lines.drop_first())
        }
    }
}

/// The walk.
pub struct SymbolParserImpl {
    pub parsed_library: HashSet<u64>,
    pub parsed_inode: HashSet<u64>,
    pub count: usize,
    pub image_end: u64,
    pub last_readable_base: u64,
}

impl SymbolParserImpl {
    pub open spec fn model(&self) -> WalkModel {
        WalkModel {
            bases: self.parsed_library@,
            inodes: self.parsed_inode@,
            count: self.count as int,
            image_end: self.image_end,
            last_readable_base: self.last_readable_base,
        }
    }

    pub open spec fn wf(&self) -> bool {
        self.count <= MAX_CODE_CACHE_ARRAY
    }

    /// Whether an exec plan value matches the model's.
    pub open spec fn plan_matches(p: &RegionPlan, pm: PlanModel) -> bool {
        match *p {
            RegionPlan::Skip => pm is Skip,
            RegionPlan::Stop => pm is Stop,
            RegionPlan::Image(ref img) => match pm {
                PlanModel::Image { base, end, file, kind } => {
                    &&& img.base == base
                    &&& img.end == end
                    &&& img.file@ == file
                    &&& match img.kind {
                        RegionKind::ParseFile { header_base, parse_headers } => kind
                            == (KindModel::ParseFile { header_base, parse_headers }),
                        RegionKind::ParseMem => kind is ParseMem,
                        RegionKind::NameOnly => kind is NameOnly,
                    }
                },
                _ => false,
            },
        }
    }

    pub fn new() -> (r: Self)
        ensures
            r.wf(),
            r.model() == (WalkModel {
                bases: Set::<u64>::empty(),
                inodes: Set::<u64>::empty(),
                count: 0,
                image_end: 0,
                last_readable_base: 0,
            }),
    {
        broadcast use vstd::std_specs::hash::group_hash_axioms;

        SymbolParserImpl {
            parsed_library: HashSet::new(),
            parsed_inode: HashSet::new(),
            count: 0,
            image_end: 0,
            last_readable_base: 0,
        }
    }

    /// Decide what one maps line asks for, and advance the walk.
    pub fn step(&mut self, line: &[u8]) -> (r: RegionPlan)
        requires
            old(self).wf(),
        ensures
            final(self).wf(),
            final(self).model() == spec_step(old(self).model(), line@).0,
            Self::plan_matches(&r, spec_step(old(self).model(), line@).1),
    {
        broadcast use vstd::std_specs::hash::group_hash_axioms;

        let desc = MemoryMapDesc::parse(line);
        if !desc.is_readable() || desc.is_empty_file() {
            return RegionPlan::Skip;
        }
        let base = desc.addr();
        let end = desc.end();
        if base == self.image_end {
            self.last_readable_base = base;
        }
        self.image_end = end;
        if !desc.is_executable() {
            return RegionPlan::Skip;
        }
        let fresh_base = self.parsed_library.insert(base);
        if !fresh_base {
            proof {
                assert(self.parsed_library@ =~= old(self).parsed_library@);
            }
            return RegionPlan::Skip;
        }
        if self.count >= MAX_CODE_CACHE_ARRAY as usize {
            return RegionPlan::Stop;
        }
        self.count = self.count + 1;
        let inode = desc.inode();
        let kind: RegionKind;
        if inode != 0 {
            let key = (desc.dev() << 32u64) | inode;
            let fresh_inode = self.parsed_inode.insert(key);
            if fresh_inode {
                let header_base = base.wrapping_sub(desc.offs());
                kind = RegionKind::ParseFile {
                    header_base,
                    parse_headers: header_base >= self.last_readable_base,
                };
            } else {
                proof {
                    assert(self.parsed_inode@ =~= old(self).parsed_inode@.insert(key));
                }
                kind = RegionKind::NameOnly;
            }
        } else {
            let mut vdso: Vec<u8> = Vec::new();
            vdso.push(91);
            vdso.push(118);
            vdso.push(100);
            vdso.push(115);
            vdso.push(111);
            vdso.push(93);
            proof {
                assert(vdso@ =~= spec_vdso_name());
            }
            if crate::bytes::bytes_eq(desc.file.as_slice(), vdso.as_slice()) {
                kind = RegionKind::ParseMem;
            } else {
                kind = RegionKind::NameOnly;
            }
        }
        RegionPlan::Image(ImagePlan { base, end, file: desc.file, kind })
    }
}

/// Every executable, readable, named line's base is seen once a pass is
/// over.
proof fn lemma_run_collects_bases(m: WalkModel, lines: Seq<Seq<u8>>)
    ensures
        forall|i: int|
            0 <= i < lines.len() && spec_line_readable(#[trigger] lines[i])
                && !spec_line_empty_file(lines[i]) && spec_line_exec(lines[i]) ==> spec_run(
                m,
                lines,
            ).bases.contains(spec_line_addr(lines[i])),
        forall|b: u64| m.bases.contains(b) ==> #[trigger] spec_run(m, lines).bases.contains(b),
    decreases lines.len(),
{
    if lines.len() > 0 {
        let (m1, _) = spec_step(m, lines[0]);
        lemma_run_collects_bases(m1, lines.drop_first());
        assert(spec_run(m, lines) == spec_run(m1, lines.drop_first()));
        assert forall|b: u64| m.bases.contains(b) implies #[trigger] spec_run(
            m,
            lines,
        ).bases.contains(b) by {
            assert(m1.bases.contains(b));
            assert(spec_run(m1, lines.drop_first()).bases.contains(b));
        }
        assert forall|i: int|
            0 <= i < lines.len() && spec_line_readable(#[trigger] lines[i])
                && !spec_line_empty_file(lines[i]) && spec_line_exec(lines[i]) implies spec_run(
            m,
            lines,
        ).bases.contains(spec_line_addr(lines[i])) by {
            if i == 0 {
                assert(m1.bases.contains(spec_line_addr(lines[0])));
                assert(spec_run(m1, lines.drop_first()).bases.contains(spec_line_addr(lines[0])));
            } else {
                assert(lines.drop_first()[i - 1] == lines[i]);
                assert(spec_run(m1, lines.drop_first()).bases.contains(
                    spec_line_addr(lines.drop_first()[i - 1]),
                ));
            }
        }
    }
}

/// A pass whose every executable line's base was already seen plans no
/// image at all.
proof fn lemma_run_no_new_images(m: WalkModel, lines: Seq<Seq<u8>>)
    requires
        forall|i: int|
            0 <= i < lines.len() && spec_line_readable(#[trigger] lines[i])
                && !spec_line_empty_file(lines[i]) && spec_line_exec(lines[i]) ==> m.bases.contains(
                spec_line_addr(lines[i]),
            ),
    ensures
        spec_run_images(m, lines) == 0,
    decreases lines.len(),
{
    if lines.len() > 0 {
        let (m1, p) = spec_step(m, lines[0]);
        assert(!(p is Image));
        assert(m1.bases =~= m.bases);
        assert forall|i: int|
            0 <= i < lines.drop_first().len() && spec_line_readable(
                #[trigger] lines.drop_first()[i],
            ) && !spec_line_empty_file(lines.drop_first()[i]) && spec_line_exec(
                lines.drop_first()[i],
            ) implies m1.bases.contains(spec_line_addr(lines.drop_first()[i])) by {
            assert(lines.drop_first()[i] == lines[i + 1]);
        }
        lemma_run_no_new_images(m1, lines.drop_first());
    }
}

/// Walking the same maps content a second time plans no further image:
/// the image set after two passes is the image set after one, whatever
/// registry the first pass already filled.
pub proof fn lemma_reparse_identical(m0: WalkModel, lines: Seq<Seq<u8>>)
    ensures
        spec_run_images(spec_run(m0, lines), lines) == 0,
{
    lemma_run_collects_bases(m0, lines);
    lemma_run_no_new_images(spec_run(m0, lines), lines);
}

/// The symbol parser's top-level state: the walk, and whether kernel symbols
/// were found (kernel symbols stay out of this sampler's scope, so the
/// flag never rises).
pub struct SymbolParser {
    pub have_kernel_symbols: bool,
    pub symbol_impl: SymbolParserImpl,
}

impl SymbolParser {
    pub fn new() -> (r: Self)
        ensures
            !r.have_kernel_symbols,
            r.symbol_impl.wf(),
    {
        SymbolParser { have_kernel_symbols: false, symbol_impl: SymbolParserImpl::new() }
    }

    pub fn have_kernel_symbols(&self) -> (r: bool)
        ensures
            r == self.have_kernel_symbols,
    {
        self.have_kernel_symbols
    }
}

} // verus!
