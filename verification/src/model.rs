//! Data model of the subtree registry: remotes, entries, and the registry
//! itself, together with their mathematical views.

use vstd::prelude::*;

verus! {

/// Where a subtree's content comes from: a fetch URL and the short alias
/// that the external tool is given on the command line.
pub struct GitRemote {
    pub url: String,
    pub alias: String,
}

/// Mathematical view of a [`GitRemote`]: both fields as character sequences.
#[verifier::ext_equal]
pub struct RemoteView {
    pub url: Seq<char>,
    pub alias: Seq<char>,
}

impl View for GitRemote {
    type V = RemoteView;

    open spec fn view(&self) -> RemoteView {
        RemoteView { url: self.url@, alias: self.alias@ }
    }
}

impl DeepView for GitRemote {
    type V = RemoteView;

    open spec fn deep_view(&self) -> RemoteView {
        self@
    }
}

impl Clone for GitRemote {
    fn clone(&self) -> (r: Self)
        ensures
            r@ == self@,
    {
        GitRemote { url: self.url.clone(), alias: self.alias.clone() }
    }
}

impl PartialEq for GitRemote {
    fn eq(&self, other: &Self) -> (r: bool) {
        self.url == other.url && self.alias == other.alias
    }
}

impl vstd::std_specs::cmp::PartialEqSpecImpl for GitRemote {
    open spec fn obeys_eq_spec() -> bool {
        true
    }

    open spec fn eq_spec(&self, other: &Self) -> bool {
        self@ == other@
    }
}

/// One declared subtree integration.  `name` is the primary key within the
/// registry; `prefix` is the local path the content lives under.  `branch`
/// and `remote` stay absent until first resolved.
pub struct SubtreeConfig {
    pub name: String,
    pub prefix: String,
    pub branch: Option<String>,
    pub remote: Option<GitRemote>,
}

/// Mathematical view of a [`SubtreeConfig`].
#[verifier::ext_equal]
pub struct EntryView {
    pub name: Seq<char>,
    pub prefix: Seq<char>,
    pub branch: Option<Seq<char>>,
    pub remote: Option<RemoteView>,
}

impl View for SubtreeConfig {
    type V = EntryView;

    open spec fn view(&self) -> EntryView {
        EntryView {
            name: self.name@,
            prefix: self.prefix@,
            branch: match self.branch {
                Some(b) => Some(b@),
                None => None,
            },
            remote: match self.remote {
                Some(r) => Some(r@),
                None => None,
            },
        }
    }
}

impl DeepView for SubtreeConfig {
    type V = EntryView;

    open spec fn deep_view(&self) -> EntryView {
        self@
    }
}

impl Clone for SubtreeConfig {
    fn clone(&self) -> (r: Self)
        ensures
            r@ == self@,
    {
        SubtreeConfig {
            name: self.name.clone(),
            prefix: self.prefix.clone(),
            branch: match &self.branch {
                Some(b) => Some(b.clone()),
                None => None,
            },
            remote: match &self.remote {
                Some(r) => Some(r.clone()),
                None => None,
            },
        }
    }
}

/// The whole registry: the process-wide options and the ordered collection
/// of subtree entries.
pub struct GitStuConfig {
    pub squash: Option<bool>,
    pub mode: Option<crate::SubtreeMode>,
    pub subtrees: Vec<SubtreeConfig>,
}

} // verus!
