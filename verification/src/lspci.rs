//! Reading the GPUs out of `lspci -nn -k` output.
use vstd::prelude::*;

use crate::packages::{text_pairs, PackageMap};
use crate::pattern::{
    capture_group, find_all, is_match, regex_find_all, regex_group, regex_is_match,
    regex_replace_first, regex_split, replace_first, split, ParsePatterns, BLOCK_START,
    CONTROLLER_PREFIX, DRIVER_IN_USE, GPU_CLASS, KERNEL_MODULES, PCI_ID, SLOT, TRAILING_ID,
};
use crate::text::{concat, lines, lines_of, option_view, trim, trim_str, unicode_lowercase};
use crate::vendor::{vendor_for_id, vendor_part, Vendor};

verus! {

/// What is known of one GPU.
#[derive(Debug)]
pub struct GpuInfo {
    /// PCI slot, such as `01:00.0`.
    pub slot: String,
    /// Device name as `lspci` gives it.
    pub name: String,
    /// PCI ID `vvvv:dddd`.
    pub pci_id: String,
    pub vendor: Vendor,
    /// Kernel driver in use, `none` when there is none.
    pub driver_in_use: String,
    /// Kernel modules that can drive the device, `none` when there are none.
    pub driver_modules: String,
    pub installed_pkgs: PackageMap,
    pub available_pkgs: PackageMap,
    /// Further facts, such as the driver version that `nvidia-smi` reports.
    pub extra: Vec<(String, String)>,
}

/// A [`GpuInfo`] as plain text, maps and sequences.
pub struct GpuView {
    pub slot: Seq<char>,
    pub name: Seq<char>,
    pub pci_id: Seq<char>,
    pub vendor: Vendor,
    pub driver_in_use: Seq<char>,
    pub driver_modules: Seq<char>,
    pub installed_pkgs: Map<Seq<char>, Seq<char>>,
    pub available_pkgs: Map<Seq<char>, Seq<char>>,
    pub extra: Seq<(Seq<char>, Seq<char>)>,
}

impl View for GpuInfo {
    type V = GpuView;

    open spec fn view(&self) -> GpuView {
        GpuView {
            slot: self.slot@,
            name: self.name@,
            pci_id: self.pci_id@,
            vendor: self.vendor,
            driver_in_use: self.driver_in_use@,
            driver_modules: self.driver_modules@,
            installed_pkgs: self.installed_pkgs@,
            available_pkgs: self.available_pkgs@,
            extra: text_pairs(self.extra@),
        }
    }
}

/// The device blocks made from the matches of [`BLOCK_START`] and the pieces
/// of text between them: each match followed by the piece after it.
pub open spec fn blocks_of_matches(starts: Seq<Seq<char>>, pieces: Seq<Seq<char>>) -> Seq<Seq<char>> {
    let n = if pieces.len() == 0 {
        0
    } else if starts.len() < pieces.len() - 1 {
        starts.len() as int
    } else {
        pieces.len() - 1
    };
    Seq::new(n as nat, |i: int| starts[i] + pieces[i + 1])
}

/// The device blocks of `lspci` output: each match of [`BLOCK_START`]
/// followed by the text up to the next match.
pub open spec fn device_blocks(raw: Seq<char>) -> Seq<Seq<char>> {
    blocks_of_matches(regex_find_all(BLOCK_START@, raw), regex_split(BLOCK_START@, raw))
}

/// The first line of a block, empty when it has none.
pub open spec fn first_line(block: Seq<char>) -> Seq<char> {
    if lines(block).len() > 0 {
        lines(block)[0]
    } else {
        seq![]
    }
}

/// A captured text, or `?` when there is none.
pub open spec fn or_unknown(group: Option<Seq<char>>) -> Seq<char> {
    match group {
        Some(s) => s,
        None => "?"@,
    }
}

/// A text, or `none` when it is empty.
pub open spec fn or_none(s: Seq<char>) -> Seq<char> {
    if s.len() == 0 {
        "none"@
    } else {
        s
    }
}

/// The trimmed first group of the last of `lines` that `pattern` matches,
/// empty when none does.
pub open spec fn last_capture(pattern: Seq<char>, lines: Seq<Seq<char>>) -> Seq<char>
    decreases lines.len(),
{
    if lines.len() == 0 {
        seq![]
    } else {
        match regex_group(pattern, lines.last(), 1) {
            Some(c) => trim(c),
            None => last_capture(pattern, lines.drop_last()),
        }
    }
}

/// The GPU made from what the patterns found on a display block: the slot
/// and PCI ID groups (`?` when absent), the first line with its class and
/// trailing ID removed (trimmed to give the name), and the driver and
/// modules captured (`none` when empty); the vendor comes from the PCI ID.
pub open spec fn gpu_record_of(
    slot: Option<Seq<char>>,
    pci_id: Option<Seq<char>>,
    bare_name: Seq<char>,
    driver_in_use: Seq<char>,
    driver_modules: Seq<char>,
) -> GpuView {
    GpuView {
        slot: or_unknown(slot),
        name: trim(bare_name),
        pci_id: or_unknown(pci_id),
        vendor: vendor_for_id(unicode_lowercase(vendor_part(or_unknown(pci_id)))),
        driver_in_use: or_none(driver_in_use),
        driver_modules: or_none(driver_modules),
        installed_pkgs: Map::empty(),
        available_pkgs: Map::empty(),
        extra: seq![],
    }
}

/// The GPU that a device block describes, when its first line names a
/// display class; nothing is known yet of its packages.
pub open spec fn gpu_of_block(block: Seq<char>) -> Option<GpuView> {
    let first = first_line(block);
    if !regex_is_match(GPU_CLASS@, first) {
        None
    } else {
        Some(
            gpu_record_of(
                regex_group(SLOT@, first, 1),
                regex_group(PCI_ID@, first, 1),
                regex_replace_first(
                    TRAILING_ID@,
                    regex_replace_first(CONTROLLER_PREFIX@, first, ""@),
                    ""@,
                ),
                last_capture(DRIVER_IN_USE@, lines(block)),
                last_capture(KERNEL_MODULES@, lines(block)),
            ),
        )
    }
}

/// The GPUs of the blocks, in order.
pub open spec fn gpus_of_blocks(blocks: Seq<Seq<char>>) -> Seq<GpuView>
    decreases blocks.len(),
{
    if blocks.len() == 0 {
        seq![]
    } else {
        let before = gpus_of_blocks(blocks.drop_last());
        match gpu_of_block(blocks.last()) {
            Some(g) => before.push(g),
            None => before,
        }
    }
}

/// The GPUs of `lspci -nn -k` output.
pub open spec fn gpus_of_lspci(raw: Seq<char>) -> Seq<GpuView> {
    gpus_of_blocks(device_blocks(raw))
}

/// Whether a freshly detected GPU names a kernel driver and modules (`none`
/// at least) and has no packages or extra facts yet.
pub open spec fn freshly_detected(g: GpuView) -> bool {
    &&& g.driver_in_use.len() > 0
    &&& g.driver_modules.len() > 0
    &&& g.installed_pkgs == Map::<Seq<char>, Seq<char>>::empty()
    &&& g.available_pkgs == Map::<Seq<char>, Seq<char>>::empty()
    &&& g.extra.len() == 0
}

/// Every GPU read from `lspci` output names a kernel driver and kernel
/// modules, `none` when the block shows none, and starts with no packages
/// and no extra facts.
pub proof fn lemma_detected_gpus_are_fresh(blocks: Seq<Seq<char>>)
    ensures
        forall|i: int| 0 <= i < gpus_of_blocks(blocks).len() ==> freshly_detected(
            #[trigger] gpus_of_blocks(blocks)[i],
        ),
    decreases blocks.len(),
{
    reveal_strlit("none");
    if blocks.len() > 0 {
        lemma_detected_gpus_are_fresh(blocks.drop_last());
        let before = gpus_of_blocks(blocks.drop_last());
        if let Some(g) = gpu_of_block(blocks.last()) {
            assert(freshly_detected(g));
            assert forall|i: int| 0 <= i < before.push(g).len() implies freshly_detected(
                #[trigger] before.push(g)[i],
            ) by {
                if i < before.len() {
                    assert(before.push(g)[i] == before[i]);
                }
            }
        }
    }
}

/// The trimmed first group of the last line that `pattern` matches.
fn last_capture_exec(pattern: &crate::pattern::Pattern, lines: &Vec<String>) -> (res: String)
    ensures
        res@ == last_capture(pattern@, lines.deep_view()),
{
    let mut res = String::new();
    let mut i: usize = 0;
    assert(lines.deep_view().take(0) =~= Seq::<Seq<char>>::empty());
    while i < lines.len()
        invariant
            i <= lines.len(),
            res@ == last_capture(pattern@, lines.deep_view().take(i as int)),
        decreases lines.len() - i,
    {
        assert(lines.deep_view().take(i + 1).drop_last() =~= lines.deep_view().take(i as int));
        assert(lines[i as int]@ == lines.deep_view()[i as int]);
        if let Some(c) = capture_group(pattern, lines[i].as_str(), 1) {
            res = trim_str(c.as_str());
        }
        i = i + 1;
    }
    assert(lines.deep_view().take(lines.len() as int) =~= lines.deep_view());
    res
}

fn or_none_exec(s: String) -> (res: String)
    ensures
        res@ == or_none(s@),
{
    if s.as_str().is_empty() {
        "none".to_owned()
    } else {
        s
    }
}

fn or_unknown_exec(group: Option<String>) -> (res: String)
    ensures
        res@ == or_unknown(match group {
            Some(s) => Some(s@),
            None => None,
        }),
{
    match group {
        Some(s) => s,
        None => "?".to_owned(),
    }
}

/// The GPU made from what the patterns found on a display block (see
/// [`gpu_record_of`]).
pub fn gpu_record(
    slot: Option<String>,
    pci_id: Option<String>,
    bare_name: &str,
    driver_in_use: String,
    driver_modules: String,
) -> (res: GpuInfo)
    ensures
        res@ == gpu_record_of(
            option_view(slot),
            option_view(pci_id),
            bare_name@,
            driver_in_use@,
            driver_modules@,
        ),
{
    let slot = or_unknown_exec(slot);
    let pci_id = or_unknown_exec(pci_id);
    let vendor = Vendor::from_pci_id(pci_id.as_str());
    let g = GpuInfo {
        slot,
        name: trim_str(bare_name),
        pci_id,
        vendor,
        driver_in_use: or_none_exec(driver_in_use),
        driver_modules: or_none_exec(driver_modules),
        installed_pkgs: PackageMap::new(),
        available_pkgs: PackageMap::new(),
        extra: Vec::new(),
    };
    assert(text_pairs(g.extra@) =~= Seq::<(Seq<char>, Seq<char>)>::empty());
    g
}

/// The GPU that one device block describes (see [`gpu_of_block`]).
pub fn read_device_block(pats: &ParsePatterns, block: &str) -> (res: Option<GpuInfo>)
    ensures
        match res {
            Some(g) => gpu_of_block(block@) == Some(g@),
            None => gpu_of_block(block@) is None,
        },
{
    proof {
        use_type_invariant(pats);
    }
    let ls = lines_of(block);
    let first = if ls.len() > 0 {
        assert(ls[0]@ == ls.deep_view()[0]);
        ls[0].clone()
    } else {
        String::new()
    };
    assert(first@ == first_line(block@));
    if !is_match(&pats.gpu_class, first.as_str()) {
        return None;
    }
    let slot = capture_group(&pats.slot, first.as_str(), 1);
    let pci_id = capture_group(&pats.pci_id, first.as_str(), 1);
    let without_class = replace_first(&pats.controller_prefix, first.as_str(), "");
    let without_id = replace_first(&pats.trailing_id, without_class.as_str(), "");
    let driver_in_use = last_capture_exec(&pats.driver_in_use, &ls);
    let driver_modules = last_capture_exec(&pats.kernel_modules, &ls);
    Some(gpu_record(slot, pci_id, without_id.as_str(), driver_in_use, driver_modules))
}

/// The device blocks made from the matches and the pieces between them
/// (see [`blocks_of_matches`]).
pub fn blocks_from_matches(starts: &Vec<String>, pieces: &Vec<String>) -> (res: Vec<String>)
    ensures
        res.deep_view() == blocks_of_matches(starts.deep_view(), pieces.deep_view()),
{
    let n: usize = if pieces.len() == 0 {
        0
    } else if starts.len() < pieces.len() - 1 {
        starts.len()
    } else {
        pieces.len() - 1
    };
    let ghost blocks = blocks_of_matches(starts.deep_view(), pieces.deep_view());
    let mut res: Vec<String> = Vec::new();
    let mut i: usize = 0;
    while i < n
        invariant
            i <= n == blocks.len(),
            n <= starts.len(),
            n + 1 <= pieces.len() || n == 0,
            blocks == blocks_of_matches(starts.deep_view(), pieces.deep_view()),
            res.deep_view() == blocks.take(i as int),
        decreases n - i,
    {
        assert(starts[i as int]@ == starts.deep_view()[i as int]);
        assert(pieces[i + 1]@ == pieces.deep_view()[i + 1]);
        let block = concat(starts[i].as_str(), pieces[i + 1].as_str());
        assert(block@ == blocks[i as int]);
        let ghost before = res.deep_view();
        res.push(block);
        assert(res.deep_view() =~= before.push(blocks[i as int]));
        i = i + 1;
        assert(res.deep_view() =~= blocks.take(i as int));
    }
    assert(blocks.take(n as int) =~= blocks);
    res
}

/// The GPUs that `lspci -nn -k` output lists: the output is cut into device
/// blocks at each slot that starts a line, and every block whose first line
/// names a VGA, 3D or Display class gives a GPU, with its slot, PCI ID,
/// vendor, name and kernel driver and modules (`none` when absent, `?` for
/// a slot or ID that the line does not show).
pub fn detect_gpus(pats: &ParsePatterns, lspci_output: &str) -> (res: Vec<GpuInfo>)
    ensures
        res@.map_values(|g: GpuInfo| g@) == gpus_of_lspci(lspci_output@),
{
    proof {
        use_type_invariant(pats);
    }
    let starts = find_all(&pats.block_start, lspci_output);
    let pieces = split(&pats.block_start, lspci_output);
    let blocks = blocks_from_matches(&starts, &pieces);
    let mut gpus: Vec<GpuInfo> = Vec::new();
    let mut i: usize = 0;
    assert(blocks.deep_view().take(0) =~= Seq::<Seq<char>>::empty());
    while i < blocks.len()
        invariant
            i <= blocks.len(),
            blocks.deep_view() == device_blocks(lspci_output@),
            gpus@.map_values(|g: GpuInfo| g@) == gpus_of_blocks(blocks.deep_view().take(i as int)),
        decreases blocks.len() - i,
    {
        assert(blocks.deep_view().take(i + 1).drop_last() =~= blocks.deep_view().take(i as int));
        assert(blocks[i as int]@ == blocks.deep_view()[i as int]);
        let ghost before = gpus@.map_values(|g: GpuInfo| g@);
        if let Some(g) = read_device_block(pats, blocks[i].as_str()) {
            gpus.push(g);
            assert(gpus@.map_values(|g: GpuInfo| g@) =~= before.push(g@));
        }
        i = i + 1;
    }
    assert(blocks.deep_view().take(blocks.len() as int) =~= blocks.deep_view());
    gpus
}

} // verus!
