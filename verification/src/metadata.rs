//! Public and private metadata blobs attached to a token line.  The ledger
//! never reads their contents; it only stores, replaces and returns them
//! under the metadata-update policy.

use vstd::prelude::*;

use crate::util::{clone_opt_string, opt_view};

verus! {

/// Optional structured fields of a metadata blob.
#[derive(Debug, PartialEq)]
pub struct Extension {
    pub image: Option<String>,
    pub description: Option<String>,
}

/// Spec-level value of an [`Extension`]: each text field by its characters.
pub struct ExtensionV {
    pub image: Option<Seq<char>>,
    pub description: Option<Seq<char>>,
}

/// A metadata blob: a token URI and/or on-chain extension fields.
#[derive(Debug, PartialEq)]
pub struct Metadata {
    pub token_uri: Option<String>,
    pub extension: Option<Extension>,
}

/// Spec-level value of a [`Metadata`].
pub struct MetadataV {
    pub token_uri: Option<Seq<char>>,
    pub extension: Option<ExtensionV>,
}

impl View for Extension {
    type V = ExtensionV;

    open spec fn view(&self) -> ExtensionV {
        ExtensionV { image: opt_view(self.image), description: opt_view(self.description) }
    }
}

impl View for Metadata {
    type V = MetadataV;

    open spec fn view(&self) -> MetadataV {
        MetadataV {
            token_uri: opt_view(self.token_uri),
            extension: match self.extension {
                Some(e) => Some(e@),
                None => None,
            },
        }
    }
}

/// Spec-level value of an optional [`Metadata`].
pub open spec fn opt_metadata_view(o: Option<Metadata>) -> Option<MetadataV> {
    match o {
        Some(m) => Some(m@),
        None => None,
    }
}

impl Clone for Extension {
    fn clone(&self) -> (r: Self)
        ensures
            r@ == self@,
    {
        Extension {
            image: clone_opt_string(&self.image),
            description: clone_opt_string(&self.description),
        }
    }
}

impl Clone for Metadata {
    fn clone(&self) -> (r: Self)
        ensures
            r@ == self@,
    {
        Metadata {
            token_uri: clone_opt_string(&self.token_uri),
            extension: match &self.extension {
                Some(e) => Some(e.clone()),
                None => None,
            },
        }
    }
}

/// Copies an optional metadata blob; the copy reads the same.
pub fn clone_opt_metadata(o: &Option<Metadata>) -> (r: Option<Metadata>)
    ensures
        opt_metadata_view(r) == opt_metadata_view(*o),
{
    match o {
        Some(m) => Some(m.clone()),
        None => None,
    }
}

impl Default for Extension {
    fn default() -> (r: Self)
        ensures
            r@ == (ExtensionV { image: None, description: None }),
    {
        Extension { image: None, description: None }
    }
}

} // verus!
