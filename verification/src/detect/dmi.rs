//! DMI board and product identity.

use vstd::prelude::*;
use crate::fs::SysfsRoot;
use crate::text;

verus! {

/// Board, product and firmware identity strings.
#[derive(Debug, Clone)]
pub struct DmiInfo {
    pub board_vendor: Option<String>,
    pub board_name: Option<String>,
    pub product_name: Option<String>,
    pub product_family: Option<String>,
    pub bios_version: Option<String>,
}

/// View of an optional string.
pub open spec fn opt_view(o: Option<String>) -> Option<Seq<char>> {
    match o {
        Some(s) => Some(s@),
        None => None,
    }
}

impl DmiInfo {
    /// Reads the five DMI identity files.
    pub fn detect(fs: &SysfsRoot) -> (r: Self)
        ensures
            opt_view(r.board_vendor) == fs.trimmed_at("sys/class/dmi/id/board_vendor"@),
            opt_view(r.board_name) == fs.trimmed_at("sys/class/dmi/id/board_name"@),
            opt_view(r.product_name) == fs.trimmed_at("sys/class/dmi/id/product_name"@),
            opt_view(r.product_family) == fs.trimmed_at("sys/class/dmi/id/product_family"@),
            opt_view(r.bios_version) == fs.trimmed_at("sys/class/dmi/id/bios_version"@),
    {
        DmiInfo {
            board_vendor: fs.read_opt("sys/class/dmi/id/board_vendor"),
            board_name: fs.read_opt("sys/class/dmi/id/board_name"),
            product_name: fs.read_opt("sys/class/dmi/id/product_name"),
            product_family: fs.read_opt("sys/class/dmi/id/product_family"),
            bios_version: fs.read_opt("sys/class/dmi/id/bios_version"),
        }
    }

    /// Whether the board vendor names Framework.
    pub open spec fn spec_is_framework(&self) -> bool {
        self.board_vendor is Some && text::contains_seq(self.board_vendor->0@, "Framework"@)
    }

    /// Whether the board vendor names Framework.
    pub fn is_framework(&self) -> (r: bool)
        ensures
            r == self.spec_is_framework(),
    {
        match &self.board_vendor {
            Some(v) => text::contains_sub(v.as_str(), "Framework"),
            None => false,
        }
    }

    /// Whether this is a Framework Laptop 16.
    pub open spec fn spec_is_framework_16(&self) -> bool {
        self.spec_is_framework() && ((self.product_name is Some && text::contains_seq(
            self.product_name->0@,
            "16"@,
        )) || (self.board_name is Some && text::contains_seq(self.board_name->0@, "16"@)))
    }

    /// Whether this is a Framework Laptop 16.
    pub fn is_framework_16(&self) -> (r: bool)
        ensures
            r == self.spec_is_framework_16(),
    {
        if !self.is_framework() {
            return false;
        }
        let in_product = match &self.product_name {
            Some(n) => text::contains_sub(n.as_str(), "16"),
            None => false,
        };
        if in_product {
            return true;
        }
        match &self.board_name {
            Some(n) => text::contains_sub(n.as_str(), "16"),
            None => false,
        }
    }
}

} // verus!
