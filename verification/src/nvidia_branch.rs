//! NVIDIA driver branch detection.
//!
//! RPM Fusion ships three NVIDIA driver branches: the current one, and the
//! legacy 470xx and 390xx branches for older chips. A chip is looked up by
//! its PCI device ID: first in the list of IDs that only the 390xx branch
//! supports (Kepler: GTX 600/700 series and some mobile variants), then in
//! the list of IDs that only the 470xx branch supports (Maxwell/Pascal era);
//! every other chip gets the current driver.
use vstd::prelude::*;

use crate::text::{ascii_lower, ascii_upper, str_eq, unicode_uppercase};

verus! {

/// The PCI device IDs supported only by the 390xx legacy branch.
pub open spec fn needs_390xx_ids() -> Seq<Seq<char>> {
    seq![
        seq!['0', 'F', 'C', 'D'], seq!['0', 'F', 'C', 'E'], seq!['0', 'F', 'D', '1'], seq!['0', 'F', 'D', '2'],
        seq!['0', 'F', 'D', '3'], seq!['0', 'F', 'D', '4'], seq!['0', 'F', 'D', '5'], seq!['0', 'F', 'D', '8'],
        seq!['0', 'F', 'D', '9'], seq!['0', 'F', 'D', 'F'], seq!['0', 'F', 'E', '0'], seq!['0', 'F', 'E', '1'],
        seq!['0', 'F', 'E', '2'], seq!['0', 'F', 'E', '3'], seq!['0', 'F', 'E', '4'], seq!['0', 'F', 'E', '9'],
        seq!['0', 'F', 'E', 'A'], seq!['0', 'F', 'E', 'C'], seq!['0', 'F', 'E', 'D'], seq!['0', 'F', 'E', 'E'],
        seq!['0', 'F', 'F', '6'], seq!['0', 'F', 'F', '8'], seq!['0', 'F', 'F', 'B'], seq!['0', 'F', 'F', 'C'],
        seq!['1', '1', '9', '8'], seq!['1', '1', '9', '9'], seq!['1', '1', '9', 'A'], seq!['1', '1', '9', 'D'],
        seq!['1', '1', '9', 'E'], seq!['1', '1', '9', 'F'], seq!['1', '1', 'A', '0'], seq!['1', '1', 'A', '1'],
        seq!['1', '1', 'A', '2'], seq!['1', '1', 'A', '3'], seq!['1', '1', 'A', '7'], seq!['1', '1', 'B', '6'],
        seq!['1', '1', 'B', '7'], seq!['1', '1', 'B', '8'], seq!['1', '1', 'B', 'C'], seq!['1', '1', 'B', 'D'],
        seq!['1', '1', 'B', 'E'], seq!['1', '1', 'E', '0'], seq!['1', '1', 'E', '1'], seq!['1', '1', 'E', '2'],
        seq!['1', '1', 'E', '3'], seq!['1', '1', 'F', 'C'], seq!['1', '2', '9', '0'], seq!['1', '2', '9', '1'],
        seq!['1', '2', '9', '2'], seq!['1', '2', '9', '3'], seq!['1', '2', '9', '5'], seq!['1', '2', '9', '6'],
        seq!['1', '2', '9', '8'], seq!['1', '2', '9', '9'], seq!['1', '2', '9', 'A'], seq!['1', '2', 'B', '9'],
        seq!['1', '2', 'B', 'A'],
    ]
}

/// The PCI device IDs supported only by the 470xx legacy branch.
pub open spec fn needs_470xx_ids() -> Seq<Seq<char>> {
    seq![
        seq!['0', 'F', 'C', '0'], seq!['0', 'F', 'C', '1'], seq!['0', 'F', 'C', '2'], seq!['0', 'F', 'F', '3'],
        seq!['1', 'B', 'B', '3'], seq!['1', 'D', 'F', '5'], seq!['1', 'E', 'B', '8'], seq!['1', 'F', '0', '9'],
    ]
}

fn needs_390xx_table() -> (t: Vec<Vec<char>>)
    ensures
        t@.map_values(|v: Vec<char>| v@) == needs_390xx_ids(),
{
    let t = vec![
        vec!['0', 'F', 'C', 'D'], vec!['0', 'F', 'C', 'E'], vec!['0', 'F', 'D', '1'], vec!['0', 'F', 'D', '2'],
        vec!['0', 'F', 'D', '3'], vec!['0', 'F', 'D', '4'], vec!['0', 'F', 'D', '5'], vec!['0', 'F', 'D', '8'],
        vec!['0', 'F', 'D', '9'], vec!['0', 'F', 'D', 'F'], vec!['0', 'F', 'E', '0'], vec!['0', 'F', 'E', '1'],
        vec!['0', 'F', 'E', '2'], vec!['0', 'F', 'E', '3'], vec!['0', 'F', 'E', '4'], vec!['0', 'F', 'E', '9'],
        vec!['0', 'F', 'E', 'A'], vec!['0', 'F', 'E', 'C'], vec!['0', 'F', 'E', 'D'], vec!['0', 'F', 'E', 'E'],
        vec!['0', 'F', 'F', '6'], vec!['0', 'F', 'F', '8'], vec!['0', 'F', 'F', 'B'], vec!['0', 'F', 'F', 'C'],
        vec!['1', '1', '9', '8'], vec!['1', '1', '9', '9'], vec!['1', '1', '9', 'A'], vec!['1', '1', '9', 'D'],
        vec!['1', '1', '9', 'E'], vec!['1', '1', '9', 'F'], vec!['1', '1', 'A', '0'], vec!['1', '1', 'A', '1'],
        vec!['1', '1', 'A', '2'], vec!['1', '1', 'A', '3'], vec!['1', '1', 'A', '7'], vec!['1', '1', 'B', '6'],
        vec!['1', '1', 'B', '7'], vec!['1', '1', 'B', '8'], vec!['1', '1', 'B', 'C'], vec!['1', '1', 'B', 'D'],
        vec!['1', '1', 'B', 'E'], vec!['1', '1', 'E', '0'], vec!['1', '1', 'E', '1'], vec!['1', '1', 'E', '2'],
        vec!['1', '1', 'E', '3'], vec!['1', '1', 'F', 'C'], vec!['1', '2', '9', '0'], vec!['1', '2', '9', '1'],
        vec!['1', '2', '9', '2'], vec!['1', '2', '9', '3'], vec!['1', '2', '9', '5'], vec!['1', '2', '9', '6'],
        vec!['1', '2', '9', '8'], vec!['1', '2', '9', '9'], vec!['1', '2', '9', 'A'], vec!['1', '2', 'B', '9'],
        vec!['1', '2', 'B', 'A'],
    ];
    assert(t@.map_values(|v: Vec<char>| v@) =~= needs_390xx_ids());
    t
}

fn needs_470xx_table() -> (t: Vec<Vec<char>>)
    ensures
        t@.map_values(|v: Vec<char>| v@) == needs_470xx_ids(),
{
    let t = vec![
        vec!['0', 'F', 'C', '0'], vec!['0', 'F', 'C', '1'], vec!['0', 'F', 'C', '2'], vec!['0', 'F', 'F', '3'],
        vec!['1', 'B', 'B', '3'], vec!['1', 'D', 'F', '5'], vec!['1', 'E', 'B', '8'], vec!['1', 'F', '0', '9'],
    ];
    assert(t@.map_values(|v: Vec<char>| v@) =~= needs_470xx_ids());
    t
}

/// Whether `a` and `b` hold the same characters.
fn chars_eq(a: &Vec<char>, b: &Vec<char>) -> (res: bool)
    ensures
        res == (a@ == b@),
{
    if a.len() != b.len() {
        return false;
    }
    let mut i: usize = 0;
    while i < a.len()
        invariant
            a.len() == b.len(),
            i <= a.len(),
            forall|k: int| 0 <= k < i ==> a@[k] == b@[k],
        decreases a.len() - i,
    {
        if a[i] != b[i] {
            return false;
        }
        i = i + 1;
    }
    assert(a@ =~= b@);
    true
}

/// Whether `id` is one of the IDs of `table`.
fn table_contains(table: &Vec<Vec<char>>, id: &Vec<char>) -> (res: bool)
    ensures
        res == table@.map_values(|v: Vec<char>| v@).contains(id@),
{
    let ghost ids = table@.map_values(|v: Vec<char>| v@);
    let mut i: usize = 0;
    while i < table.len()
        invariant
            i <= table.len(),
            ids == table@.map_values(|v: Vec<char>| v@),
            forall|k: int| 0 <= k < i ==> ids[k] != id@,
        decreases table.len() - i,
    {
        if chars_eq(&table[i], id) {
            assert(ids[i as int] == id@);
            return true;
        }
        i = i + 1;
    }
    false
}

/// `s` with every leading `"0X"` removed (`str::trim_start_matches("0X")`).
pub open spec fn strip_hex_prefix(s: Seq<char>) -> Seq<char>
    decreases s.len(),
{
    if s.len() >= 2 && s[0] == '0' && s[1] == 'X' {
        strip_hex_prefix(s.skip(2))
    } else {
        s
    }
}

/// The branch for a device ID as it stands in the lists: `"390xx"`,
/// `"470xx"` or `"current"`.
pub open spec fn branch_for(id: Seq<char>) -> Seq<char> {
    if needs_390xx_ids().contains(id) {
        "390xx"@
    } else if needs_470xx_ids().contains(id) {
        "470xx"@
    } else {
        "current"@
    }
}

/// The branch for a device ID written with ASCII characters only, in either
/// case and with or without a `0x` prefix.
pub open spec fn ascii_driver_branch(id: Seq<char>) -> Seq<char> {
    branch_for(strip_hex_prefix(ascii_upper(id)))
}

/// The branch for an uppercase device ID: the `0X` prefixes are dropped,
/// then the ID is looked up in the 390xx list, then in the 470xx list.
pub fn driver_branch_for_uppercase_id(upper_id: &str) -> (res: &'static str)
    ensures
        res@ == branch_for(strip_hex_prefix(upper_id@)),
        needs_390xx_ids().contains(strip_hex_prefix(upper_id@)) ==> res@ == "390xx"@,
        !needs_390xx_ids().contains(strip_hex_prefix(upper_id@)) && needs_470xx_ids().contains(
            strip_hex_prefix(upper_id@),
        ) ==> res@ == "470xx"@,
        !needs_390xx_ids().contains(strip_hex_prefix(upper_id@)) && !needs_470xx_ids().contains(
            strip_hex_prefix(upper_id@),
        ) ==> res@ == "current"@,
{
    let v = crate::text::chars_of(upper_id);
    let mut i: usize = 0;
    assert(v@.skip(0) =~= v@);
    while i < v.len() && v.len() - i >= 2 && v[i] == '0' && v[i + 1] == 'X'
        invariant
            i <= v.len(),
            v@ == upper_id@,
            strip_hex_prefix(v@) == strip_hex_prefix(v@.skip(i as int)),
        decreases v.len() - i,
    {
        assert(v@.skip(i as int).skip(2) =~= v@.skip(i + 2));
        i = i + 2;
    }
    assert(strip_hex_prefix(v@.skip(i as int)) == v@.skip(i as int));
    assert(v@.subrange(i as int, v.len() as int) =~= v@.skip(i as int));
    let mut id: Vec<char> = Vec::new();
    let mut k: usize = i;
    while k < v.len()
        invariant
            i <= k <= v.len(),
            id@ == v@.subrange(i as int, k as int),
        decreases v.len() - k,
    {
        id.push(v[k]);
        k = k + 1;
        assert(id@ =~= v@.subrange(i as int, k as int));
    }
    if table_contains(&needs_390xx_table(), &id) {
        "390xx"
    } else if table_contains(&needs_470xx_table(), &id) {
        "470xx"
    } else {
        "current"
    }
}

/// The RPM Fusion driver branch for an NVIDIA PCI device ID such as `"1198"`
/// or `"0x0fc0"`: the ID is taken in uppercase, any `0X` prefix dropped,
/// and looked up in the 390xx list, then in the 470xx list; every other ID
/// gets `"current"`.
pub fn nvidia_driver_branch(pci_device_id: &str) -> (res: &'static str)
    ensures
        res@ == branch_for(strip_hex_prefix(unicode_uppercase(pci_device_id@))),
        vstd::utf8::is_ascii_chars(pci_device_id@) ==> res@ == ascii_driver_branch(
            pci_device_id@,
        ),
{
    let id = pci_device_id.to_uppercase();
    driver_branch_for_uppercase_id(id.as_str())
}

/// The branch follows the two lists alone: an ID on the 390xx list gets
/// `390xx`; an ID on the 470xx list only gets `470xx`; an ID on neither list
/// gets `current`. So `470xx` comes only for IDs of the 470xx list, and
/// `390xx` only for IDs of the 390xx list.
pub proof fn lemma_branch_follows_lists(id: Seq<char>)
    ensures
        needs_390xx_ids().contains(id) ==> branch_for(id) == "390xx"@,
        !needs_390xx_ids().contains(id) && needs_470xx_ids().contains(id) ==> branch_for(id)
            == "470xx"@,
        !needs_390xx_ids().contains(id) && !needs_470xx_ids().contains(id) ==> branch_for(id)
            == "current"@,
        branch_for(id) == "470xx"@ ==> needs_470xx_ids().contains(id),
        branch_for(id) == "390xx"@ ==> needs_390xx_ids().contains(id),
        branch_for(id) == "390xx"@ || branch_for(id) == "470xx"@ || branch_for(id) == "current"@,
{
    reveal_strlit("390xx");
    reveal_strlit("470xx");
    reveal_strlit("current");
    assert("current"@ != "470xx"@) by {
        assert("current"@.len() != "470xx"@.len());
    }
    assert("current"@ != "390xx"@) by {
        assert("current"@.len() != "390xx"@.len());
    }
    assert("390xx"@ != "470xx"@) by {
        assert("390xx"@[0] != "470xx"@[0]);
    }
}

/// Case does not matter: an ASCII device ID written in lowercase, in
/// uppercase or mixed gets the same branch.
pub proof fn lemma_branch_ignores_ascii_case(id: Seq<char>)
    requires
        vstd::utf8::is_ascii_chars(id),
    ensures
        ascii_driver_branch(ascii_lower(id)) == ascii_driver_branch(id),
        ascii_driver_branch(ascii_upper(id)) == ascii_driver_branch(id),
{
    assert(ascii_upper(ascii_lower(id)) =~= ascii_upper(id));
    assert(ascii_upper(ascii_upper(id)) =~= ascii_upper(id));
}

/// A `0x` or `0X` prefix does not change the branch: `"0x0FC0"` gets the
/// branch of `"0FC0"`.
pub proof fn lemma_branch_ignores_hex_prefix(id: Seq<char>)
    requires
        vstd::utf8::is_ascii_chars(id),
    ensures
        ascii_driver_branch(seq!['0', 'x'] + id) == ascii_driver_branch(id),
        ascii_driver_branch(seq!['0', 'X'] + id) == ascii_driver_branch(id),
{
    assert(ascii_upper(seq!['0', 'x'] + id).skip(2) =~= ascii_upper(id));
    assert(ascii_upper(seq!['0', 'X'] + id).skip(2) =~= ascii_upper(id));
}

/// A number that tells four-character IDs apart.
pub open spec fn id_code(s: Seq<char>) -> int {
    (s[0] as int) * 0x1000000 + (s[1] as int) * 0x10000 + (s[2] as int) * 0x100 + (s[3] as int)
}

/// Whether some ID of `list` from position `i` on has the code of `x`.
pub open spec fn list_has(list: Seq<Seq<char>>, x: Seq<char>, i: int) -> bool
    decreases list.len() - i,
{
    0 <= i < list.len() && (id_code(list[i]) == id_code(x) || list_has(list, x, i + 1))
}

/// Whether no ID of `a` from position `i` on is in `b`.
pub open spec fn lists_disjoint(a: Seq<Seq<char>>, b: Seq<Seq<char>>, i: int) -> bool
    decreases a.len() - i,
{
    i < 0 || i >= a.len() || (!list_has(b, a[i], 0) && lists_disjoint(a, b, i + 1))
}

proof fn lemma_list_has(list: Seq<Seq<char>>, x: Seq<char>, i: int, k: int)
    requires
        0 <= i <= k < list.len(),
        list[k] == x,
    ensures
        list_has(list, x, i),
    decreases k - i,
{
    if i < k {
        lemma_list_has(list, x, i + 1, k);
    }
}

proof fn lemma_lists_disjoint(a: Seq<Seq<char>>, b: Seq<Seq<char>>, i: int, k: int)
    requires
        lists_disjoint(a, b, i),
        0 <= i <= k < a.len(),
    ensures
        !b.contains(a[k]),
    decreases k - i,
{
    if i < k {
        lemma_lists_disjoint(a, b, i + 1, k);
    } else if b.contains(a[k]) {
        let j = choose|j: int| 0 <= j < b.len() && b[j] == a[k];
        lemma_list_has(b, a[k], 0, j);
    }
}

/// No ID is on both legacy lists, so every ID of the 470xx list gets the
/// 470xx branch and every ID of the 390xx list gets the 390xx branch.
#[verifier::rlimit(100)]
pub proof fn lemma_legacy_lists_disjoint()
    ensures
        forall|id: Seq<char>| #[trigger] needs_470xx_ids().contains(id) ==> !needs_390xx_ids().contains(id),
        forall|id: Seq<char>| #[trigger] needs_470xx_ids().contains(id) ==> branch_for(id) == "470xx"@,
        forall|id: Seq<char>| #[trigger] needs_390xx_ids().contains(id) ==> branch_for(id) == "390xx"@,
{
    reveal_with_fuel(list_has, 58);
    reveal_with_fuel(lists_disjoint, 9);
    assert(lists_disjoint(needs_470xx_ids(), needs_390xx_ids(), 0));
    assert forall|id: Seq<char>| #[trigger] needs_470xx_ids().contains(id) implies
        !needs_390xx_ids().contains(id) by {
        let k = choose|k: int| 0 <= k < needs_470xx_ids().len() && needs_470xx_ids()[k] == id;
        lemma_lists_disjoint(needs_470xx_ids(), needs_390xx_ids(), 0, k);
    }
}

/// The packages to install for a driver branch, and a description of it.
pub open spec fn packages_for(branch: Seq<char>) -> (Seq<char>, Seq<char>) {
    if branch == "390xx"@ {
        (
            "akmod-nvidia-390xx xorg-x11-drv-nvidia-390xx nvidia-settings-390xx"@,
            "390xx legacy driver (GTX 600/700 series)"@,
        )
    } else if branch == "470xx"@ {
        (
            "akmod-nvidia-470xx xorg-x11-drv-nvidia-470xx nvidia-settings-470xx"@,
            "470xx legacy driver"@,
        )
    } else {
        (
            "akmod-nvidia xorg-x11-drv-nvidia xorg-x11-drv-nvidia-power nvidia-settings nvidia-modprobe"@,
            "current driver (Turing/Ampere/Ada/Blackwell)"@,
        )
    }
}

/// The package set of a driver branch and its description; any branch name
/// other than `"390xx"` and `"470xx"` gets the current driver's packages.
pub fn nvidia_packages_for_branch(branch: &str) -> (res: (&'static str, &'static str))
    ensures
        (res.0@, res.1@) == packages_for(branch@),
{
    if str_eq(branch, "390xx") {
        (
            "akmod-nvidia-390xx xorg-x11-drv-nvidia-390xx nvidia-settings-390xx",
            "390xx legacy driver (GTX 600/700 series)",
        )
    } else if str_eq(branch, "470xx") {
        ("akmod-nvidia-470xx xorg-x11-drv-nvidia-470xx nvidia-settings-470xx", "470xx legacy driver")
    } else {
        (
            "akmod-nvidia xorg-x11-drv-nvidia xorg-x11-drv-nvidia-power nvidia-settings nvidia-modprobe",
            "current driver (Turing/Ampere/Ada/Blackwell)",
        )
    }
}

} // verus!
