//! Import names and the exact comparison that decides a match.

use vstd::prelude::*;
use vstd::string::StringSliceAdditionalSpecFns;
use vstd::utf8::encode_utf8_decode_utf8;
use crate::bytes::bytes_equal;

verus! {

/// A module name and an item name, each as its sequence of characters.
///
/// This is the mathematical form of both a decoded import and a query.
pub struct ImportPair {
    pub module: Seq<char>,
    pub name: Seq<char>,
}

/// The pair that stands for the strings `module` and `name`.
pub open spec fn pair_of(module: &str, name: &str) -> ImportPair {
    ImportPair { module: module@, name: name@ }
}

/// Two strings are the same, character for character, exactly if their bytes
/// are the same: no two strings share their bytes.
pub proof fn lemma_same_string_same_bytes(first: &str, second: &str)
    ensures
        first@ == second@ <==> first.spec_bytes() == second.spec_bytes(),
{
    encode_utf8_decode_utf8(first@);
    encode_utf8_decode_utf8(second@);
}

/// One import declaration of a module, as far as the scan reads it: the kind
/// of the imported item is left out.
#[derive(Clone, Copy, Debug)]
pub struct Import<'a> {
    /// The module the item is imported from.
    pub module: &'a str,
    /// The name of the imported item.
    pub name: &'a str,
}

impl<'a> View for Import<'a> {
    type V = ImportPair;

    open spec fn view(&self) -> ImportPair {
        pair_of(self.module, self.name)
    }
}

/// The import that a scan looks for.
#[derive(Clone, Copy, Debug)]
pub struct ImportQuery<'a> {
    /// The module to look for.
    pub module: &'a str,
    /// The item name to look for.
    pub name: &'a str,
}

impl<'a> View for ImportQuery<'a> {
    type V = ImportPair;

    open spec fn view(&self) -> ImportPair {
        pair_of(self.module, self.name)
    }
}

impl<'a> ImportQuery<'a> {
    /// Whether `import` is the import this query looks for: both names must
    /// be the same, which is decided byte by byte.
    pub fn matches(&self, import: &Import) -> (hit: bool)
        ensures
            hit == (import@ == self@),
    {
        proof {
            lemma_same_string_same_bytes(import.module, self.module);
            lemma_same_string_same_bytes(import.name, self.name);
        }
        bytes_equal(import.module.as_bytes(), self.module.as_bytes()) && bytes_equal(
            import.name.as_bytes(),
            self.name.as_bytes(),
        )
    }
}

} // verus!
