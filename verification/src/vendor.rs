//! GPU vendors, told apart by the vendor half of a PCI ID.
use vstd::prelude::*;

use crate::text::{
    ascii_lower, lemma_split_pieces_nonempty, split_char, split_pieces, str_eq,
    unicode_lowercase,
};

verus! {

#[derive(Debug, Clone, Copy, PartialEq, Eq, Structural)]
pub enum Vendor {
    Nvidia,
    Amd,
    Intel,
    Unknown,
}

/// The vendor of a lowercase PCI vendor ID.
pub open spec fn vendor_for_id(vendor_id: Seq<char>) -> Vendor {
    if vendor_id == "10de"@ {
        Vendor::Nvidia
    } else if vendor_id == "1002"@ {
        Vendor::Amd
    } else if vendor_id == "8086"@ {
        Vendor::Intel
    } else {
        Vendor::Unknown
    }
}

/// The vendor half of a PCI ID `vvvv:dddd`: everything before the first
/// colon, or the whole ID when it has none.
pub open spec fn vendor_part(pci_id: Seq<char>) -> Seq<char> {
    split_pieces(pci_id, ':')[0]
}

pub open spec fn vendor_label(v: Vendor) -> Seq<char> {
    match v {
        Vendor::Nvidia => "NVIDIA"@,
        Vendor::Amd => "AMD"@,
        Vendor::Intel => "Intel"@,
        Vendor::Unknown => "Unknown"@,
    }
}

pub open spec fn vendor_subtitle(v: Vendor) -> Seq<char> {
    match v {
        Vendor::Nvidia => "Proprietary driver via RPM Fusion nonfree (akmod-nvidia)"@,
        Vendor::Amd => "Open-source amdgpu driver (in-kernel) \u{b7} Mesa via main Fedora repos"@,
        Vendor::Intel => "Open-source i915/xe driver (in-kernel) \u{b7} No additional repos required"@,
        Vendor::Unknown => "Unknown vendor"@,
    }
}

/// The PCI IDs (lowercase) of the AMD integrated GPUs that are known:
/// Raphael, Rembrandt, Phoenix, Phoenix 2, Strix / Hawk Point.
pub open spec fn amd_igpu_ids() -> Seq<Seq<char>> {
    seq![
        "1002:164e"@, "1002:164c"@, "1002:1681"@, "1002:1680"@, "1002:15bf"@,
        "1002:15c8"@, "1002:15c9"@, "1002:15ca"@, "1002:1900"@, "1002:1901"@,
    ]
}

/// The known AMD integrated GPUs are exactly these ten PCI IDs: Raphael
/// (`1002:164e`), Rembrandt (`1002:1681`, `1002:1680`), Phoenix
/// (`1002:15bf`), Phoenix 2 (`1002:15c8`), Strix / Hawk Point (`1002:15c9`,
/// `1002:15ca`, `1002:1900`, `1002:1901`) and `1002:164c`.
pub proof fn lemma_amd_igpu_ids(id: Seq<char>)
    ensures
        amd_igpu_ids().contains(id) <==> (id == "1002:164e"@ || id == "1002:164c"@ || id
            == "1002:1681"@ || id == "1002:1680"@ || id == "1002:15bf"@ || id == "1002:15c8"@
            || id == "1002:15c9"@ || id == "1002:15ca"@ || id == "1002:1900"@ || id
            == "1002:1901"@),
{
    let ids = amd_igpu_ids();
    assert(ids[0] == "1002:164e"@);
    assert(ids[1] == "1002:164c"@);
    assert(ids[2] == "1002:1681"@);
    assert(ids[3] == "1002:1680"@);
    assert(ids[4] == "1002:15bf"@);
    assert(ids[5] == "1002:15c8"@);
    assert(ids[6] == "1002:15c9"@);
    assert(ids[7] == "1002:15ca"@);
    assert(ids[8] == "1002:1900"@);
    assert(ids[9] == "1002:1901"@);
    if ids.contains(id) {
        let k = choose|k: int| 0 <= k < ids.len() && ids[k] == id;
        assert(0 <= k < 10);
    }
}

impl Vendor {
    /// The vendor of a lowercase vendor ID: `10de` NVIDIA, `1002` AMD,
    /// `8086` Intel, anything else unknown.
    pub fn from_lowercase_vendor_id(vendor_id: &str) -> (res: Vendor)
        ensures
            res == vendor_for_id(vendor_id@),
    {
        if str_eq(vendor_id, "10de") {
            Vendor::Nvidia
        } else if str_eq(vendor_id, "1002") {
            Vendor::Amd
        } else if str_eq(vendor_id, "8086") {
            Vendor::Intel
        } else {
            Vendor::Unknown
        }
    }

    /// The vendor of a PCI ID such as `10de:25a0`, by its vendor half taken
    /// in lowercase.
    pub fn from_pci_id(id: &str) -> (res: Vendor)
        ensures
            res == vendor_for_id(unicode_lowercase(vendor_part(id@))),
            vstd::utf8::is_ascii_chars(vendor_part(id@)) ==> res == vendor_for_id(
                ascii_lower(vendor_part(id@)),
            ),
    {
        let pieces = split_char(id, ':');
        proof {
            lemma_split_pieces_nonempty(id@, ':');
        }
        assert(pieces[0]@ == pieces.deep_view()[0]);
        let lower = pieces[0].as_str().to_lowercase();
        Vendor::from_lowercase_vendor_id(lower.as_str())
    }

    pub fn label(&self) -> (res: &'static str)
        ensures
            res@ == vendor_label(*self),
    {
        match self {
            Vendor::Nvidia => "NVIDIA",
            Vendor::Amd => "AMD",
            Vendor::Intel => "Intel",
            Vendor::Unknown => "Unknown",
        }
    }

    pub fn subtitle(&self) -> (res: &'static str)
        ensures
            res@ == vendor_subtitle(*self),
    {
        match self {
            Vendor::Nvidia => "Proprietary driver via RPM Fusion nonfree (akmod-nvidia)",
            Vendor::Amd => "Open-source amdgpu driver (in-kernel) \u{b7} Mesa via main Fedora repos",
            Vendor::Intel => "Open-source i915/xe driver (in-kernel) \u{b7} No additional repos required",
            Vendor::Unknown => "Unknown vendor",
        }
    }

    /// Whether a lowercase PCI ID is one of the known AMD integrated GPUs.
    pub fn is_amd_igpu_lowercase_id(pci_id: &str) -> (res: bool)
        ensures
            res == amd_igpu_ids().contains(pci_id@),
            res <==> (pci_id@ == "1002:164e"@ || pci_id@ == "1002:164c"@ || pci_id@
                == "1002:1681"@ || pci_id@ == "1002:1680"@ || pci_id@ == "1002:15bf"@
                || pci_id@ == "1002:15c8"@ || pci_id@ == "1002:15c9"@ || pci_id@
                == "1002:15ca"@ || pci_id@ == "1002:1900"@ || pci_id@ == "1002:1901"@),
    {
        proof {
            lemma_amd_igpu_ids(pci_id@);
        }
        let ids = vec![
            "1002:164e", "1002:164c", "1002:1681", "1002:1680", "1002:15bf",
            "1002:15c8", "1002:15c9", "1002:15ca", "1002:1900", "1002:1901",
        ];
        assert(ids@.map_values(|s: &str| s@) =~= amd_igpu_ids());
        let mut i: usize = 0;
        while i < ids.len()
            invariant
                i <= ids.len(),
                ids@.map_values(|s: &str| s@) == amd_igpu_ids(),
                forall|k: int| 0 <= k < i ==> amd_igpu_ids()[k] != pci_id@,
            decreases ids.len() - i,
        {
            if str_eq(ids[i], pci_id) {
                assert(amd_igpu_ids()[i as int] == pci_id@);
                proof {
                    lemma_amd_igpu_ids(pci_id@);
                }
                return true;
            }
            i = i + 1;
        }
        false
    }

    /// Whether a PCI ID, taken in lowercase, is one of the known AMD
    /// integrated GPUs.
    pub fn is_amd_igpu(pci_id: &str) -> (res: bool)
        ensures
            res == amd_igpu_ids().contains(unicode_lowercase(pci_id@)),
            vstd::utf8::is_ascii_chars(pci_id@) ==> res == amd_igpu_ids().contains(
                ascii_lower(pci_id@),
            ),
    {
        let lower = pci_id.to_lowercase();
        Vendor::is_amd_igpu_lowercase_id(lower.as_str())
    }
}

} // verus!
