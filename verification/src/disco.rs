//! Service discovery: the features that the client says it supports.

use crate::text::{holds, texts};
use vstd::prelude::*;
use vstd::string::*;

verus! {

/// The plugin that answers what the client supports.
pub struct Disco {
    features: Vec<String>,
}

impl Disco {
    /// The features that the client supports, in the order in which they
    /// were added.
    pub closed spec fn features(&self) -> Seq<Seq<char>> {
        texts(self.features@)
    }

    /// A plugin that knows no feature yet.
    pub fn new() -> (disco: Disco)
        ensures
            disco.features() == Seq::<Seq<char>>::empty(),
    {
        let disco = Disco { features: Vec::new() };
        proof {
            assert(texts(disco.features@) =~= Seq::<Seq<char>>::empty());
        }
        disco
    }

    /// Adds a feature. It is an error to add a feature twice; nothing
    /// changes then.
    pub fn add_feature(&mut self, uri: &str) -> (added: Result<(), ()>)
        ensures
            added is Ok <==> !old(self).features().contains(uri@),
            final(self).features() == if old(self).features().contains(uri@) {
                old(self).features()
            } else {
                old(self).features().push(uri@)
            },
    {
        if holds(&self.features, uri) {
            Err(())
        } else {
            self.features.push(uri.to_owned());
            proof {
                assert(texts(self.features@) =~= texts(old(self).features@).push(uri@));
            }
            Ok(())
        }
    }

    /// Whether the client supports a feature.
    pub fn has_feature(&self, uri: &str) -> (has: bool)
        ensures
            has == self.features().contains(uri@),
    {
        holds(&self.features, uri)
    }

    /// The features that the client supports, in the order in which they
    /// were added.
    pub fn get_features(&self) -> (features: Vec<String>)
        ensures
            texts(features@) == self.features(),
    {
        crate::command::copy_texts(&self.features)
    }

    /// The name under which the plugin is listed.
    pub fn to_string(&self) -> (s: String)
        ensures
            s@ == "XEP-0030: Service Discovery"@,
    {
        String::from_str("XEP-0030: Service Discovery")
    }
}

} // verus!
