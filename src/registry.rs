//! The registry that maps opaque identifiers to file paths.

use std::collections::HashMap;
use vstd::prelude::*;
use vstd::string::*;

use crate::ident::{derive_id_and_key, id_key, id_number, is_id, lemma_path_id_shape, path_id, sha256_of};
use crate::text::{decimal, push_decimal};

verus! {

broadcast use vstd::std_specs::hash::group_hash_axioms;

/// The loopback port that the streaming server listens on by default.
pub const DEFAULT_PORT: u16 = 3030;

/// What an identifier resolves to in a registry whose contents are `m`:
/// the path stored under the number the identifier spells, if the
/// identifier is well formed and that number is present.
pub open spec fn lookup(m: Map<u64, Seq<char>>, id: Seq<char>) -> Option<Seq<char>> {
    if is_id(id) && m.contains_key(id_number(id)) {
        Some(m[id_number(id)])
    } else {
        None
    }
}

/// The registry after `p` was registered in one whose contents were `m`.
pub open spec fn registered(m: Map<u64, Seq<char>>, p: Seq<char>) -> Map<u64, Seq<char>> {
    m.insert(id_number(path_id(p)), p)
}

/// The address under which the streaming server serves identifier `id`.
pub open spec fn video_url_of(port: nat, id: Seq<char>) -> Seq<char> {
    "http://127.0.0.1:"@ + decimal(port) + "/video/"@ + id
}

/// A mapping from identifiers to the paths they were derived from. Entries
/// are never removed.
pub struct PathRegistry {
    paths: HashMap<u64, String>,
}

impl View for PathRegistry {
    type V = Map<u64, Seq<char>>;

    closed spec fn view(&self) -> Map<u64, Seq<char>> {
        self.paths@.map_values(|v: String| v@)
    }
}

impl PathRegistry {
    /// An empty registry.
    pub fn new() -> (r: PathRegistry)
        ensures
            r@ == Map::<u64, Seq<char>>::empty(),
            r@.dom().finite(),
    {
        let r = PathRegistry { paths: HashMap::new() };
        proof {
            assert(r@ =~= Map::<u64, Seq<char>>::empty());
        }
        r
    }

    /// Registers `path` under its derived identifier, replacing whatever was
    /// stored under that identifier, and returns the identifier.
    pub fn register(&mut self, path: &str) -> (id: String)
        ensures
            id@ == path_id(path@),
            is_id(id@),
            final(self)@ == registered(old(self)@, path@),
            final(self)@.dom().finite(),
    {
        let (id, key) = derive_id_and_key(path);
        self.paths.insert(key, String::from_str(path));
        proof {
            assert(self@ =~= registered(old(self)@, path@));
            assert(self.paths@.dom().finite());
            assert(self@.dom() =~= self.paths@.dom());
        }
        id
    }

    /// A registry holds finitely many entries.
    pub proof fn lemma_finite(&self)
        ensures
            self@.dom().finite(),
    {
        assert(self.paths@.dom().finite());
        assert(self@.dom() =~= self.paths@.dom());
    }

    /// The path registered under `id`, if any.
    pub fn resolve(&self, id: &str) -> (r: Option<String>)
        ensures
            match r {
                Some(p) => lookup(self@, id@) == Some(p@),
                None => lookup(self@, id@) is None,
            },
    {
        match id_key(id) {
            None => None,
            Some(k) => match self.paths.get(&k) {
                Some(p) => Some(p.clone()),
                None => None,
            },
        }
    }
}

/// The address under which the server on `port` serves identifier `id`.
pub fn video_url(port: u16, id: &str) -> (url: String)
    ensures
        url@ == video_url_of(port as nat, id@),
{
    let mut url = String::from_str("http://127.0.0.1:");
    push_decimal(&mut url, port as u64);
    url.append("/video/");
    url.append(id);
    proof {
        reveal_strlit("http://127.0.0.1:");
        reveal_strlit("/video/");
    }
    url
}

/// Registers `path` and returns the address under which the server on
/// `port` serves it.
pub fn register_video(registry: &mut PathRegistry, path: &str, port: u16) -> (url: String)
    ensures
        url@ == video_url_of(port as nat, path_id(path@)),
        is_id(path_id(path@)),
        final(registry)@ == registered(old(registry)@, path@),
        final(registry)@.dom().finite(),
{
    let id = registry.register(path);
    video_url(port, id.as_str())
}

/// Resolving the identifier that registering a path returned yields that path.
pub proof fn lemma_resolve_after_register(m: Map<u64, Seq<char>>, p: Seq<char>)
    requires
        sha256_of(p).len() == 32,
    ensures
        lookup(registered(m, p), path_id(p)) == Some(p),
{
    lemma_path_id_shape(p);
}

/// Registering a path a second time changes nothing: the identifier is the
/// same, and it still resolves to the path.
pub proof fn lemma_register_idempotent(m: Map<u64, Seq<char>>, p: Seq<char>)
    requires
        sha256_of(p).len() == 32,
    ensures
        registered(registered(m, p), p) == registered(m, p),
        lookup(registered(registered(m, p), p), path_id(p)) == Some(p),
{
    assert(registered(registered(m, p), p) =~= registered(m, p));
    lemma_resolve_after_register(m, p);
}

/// Registering one path leaves the resolution of every other identifier as
/// it was, unless the two identifiers spell the same number (a digest-prefix
/// collision, an accepted risk).
pub proof fn lemma_register_keeps_others(m: Map<u64, Seq<char>>, p: Seq<char>, id: Seq<char>)
    requires
        !is_id(id) || id_number(id) != id_number(path_id(p)),
    ensures
        lookup(registered(m, p), id) == lookup(m, id),
{
}

} // verus!
