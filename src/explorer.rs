//! What the project explorer shows, and the asset paths it hands out for
//! drag and drop.
use vstd::prelude::*;

use crate::codegen::views;

verus! {

/// The asset path carried by a drag from the explorer.
#[derive(Clone, Debug)]
pub struct AssetRefPayload(pub String);

/// Entry names the explorer never shows.
pub open spec fn hidden_names() -> Seq<Seq<char>> {
    seq![".bevy"@, ".cargo"@, "Cargo.toml"@, "Cargo.lock"@, "target"@]
}

/// File extensions the explorer never shows.
pub open spec fn hidden_extensions() -> Seq<Seq<char>> {
    seq!["meta"@]
}

fn hidden_name_list() -> (r: Vec<String>)
    ensures
        views(r@) == hidden_names(),
{
    let mut r: Vec<String> = Vec::new();
    r.push(String::from_str(".bevy"));
    r.push(String::from_str(".cargo"));
    r.push(String::from_str("Cargo.toml"));
    r.push(String::from_str("Cargo.lock"));
    r.push(String::from_str("target"));
    proof {
        assert(views(r@) =~= hidden_names());
    }
    r
}

fn contains_view(list: &Vec<String>, s: &String) -> (r: bool)
    ensures
        r == views(list@).contains(s@),
{
    let mut i: usize = 0;
    while i < list.len()
        invariant
            i <= list@.len(),
            forall|k: int| 0 <= k < i ==> list@[k]@ != s@,
        decreases list.len() - i,
    {
        if list[i] == *s {
            proof {
                assert(views(list@)[i as int] == s@);
            }
            return true;
        }
        i += 1;
    }
    proof {
        if views(list@).contains(s@) {
            let k = choose|k: int| 0 <= k < views(list@).len() && views(list@)[k] == s@;
            assert(list@[k]@ == s@);
        }
    }
    false
}

/// Whether the explorer skips an entry with this file name and extension.
pub fn is_hidden(file_name: &str, extension: Option<&str>) -> (r: bool)
    ensures
        r == (hidden_names().contains(file_name@) || match extension {
            Some(e) => hidden_extensions().contains(e@),
            None => false,
        }),
{
    let names = hidden_name_list();
    let name = String::from_str(file_name);
    if contains_view(&names, &name) {
        return true;
    }
    match extension {
        Some(e) => {
            let mut exts: Vec<String> = Vec::new();
            exts.push(String::from_str("meta"));
            proof {
                assert(views(exts@) =~= hidden_extensions());
            }
            contains_view(&exts, &String::from_str(e))
        },
        None => false,
    }
}

/// The path of a labeled sub-asset: the asset's path, `#`, the label.
pub open spec fn labeled_path(asset_path: Seq<char>, label: Seq<char>) -> Seq<char> {
    asset_path + seq!['#'] + label
}

/// The drag payload of a labeled sub-asset.
pub fn labeled_payload(asset_path: &str, label: &str) -> (r: AssetRefPayload)
    ensures
        r.0@ == labeled_path(asset_path@, label@),
{
    let mut p = String::from_str(asset_path);
    p.append("#");
    p.append(label);
    proof {
        reveal_strlit("#");
    }
    AssetRefPayload(p)
}

/// The path of a file relative to the asset directory, given both by their
/// components, or `None` when the file lies outside it.
pub fn asset_path_components(path: &Vec<String>, asset_dir: &Vec<String>) -> (r: Option<Vec<String>>)
    ensures
        match r {
            Some(rel) => asset_dir@.len() <= path@.len() && views(path@).subrange(0, asset_dir@.len() as int)
                == views(asset_dir@) && views(rel@) == views(path@).subrange(
                asset_dir@.len() as int,
                path@.len() as int,
            ),
            None => !crate::scene::path_within(views(path@), views(asset_dir@)),
        },
{
    if !crate::scene::is_within(path, asset_dir) {
        return None;
    }
    let mut rel: Vec<String> = Vec::new();
    let mut i: usize = asset_dir.len();
    while i < path.len()
        invariant
            asset_dir@.len() <= i <= path@.len(),
            views(rel@) == views(path@).subrange(asset_dir@.len() as int, i as int),
        decreases path.len() - i,
    {
        let ghost before = rel@;
        rel.push(path[i].clone());
        proof {
            assert(views(rel@) =~= views(before).push(path@[i as int]@));
            assert(views(path@).subrange(asset_dir@.len() as int, i + 1) =~= views(path@).subrange(
                asset_dir@.len() as int,
                i as int,
            ).push(path@[i as int]@));
        }
        i += 1;
    }
    Some(rel)
}


/// A component field that refers to an asset by its path; empty refers to
/// nothing.
#[derive(Clone, Debug, Default)]
pub struct AssetRef {
    pub path: String,
}

impl AssetRef {
    pub fn is_empty(&self) -> (r: bool)
        ensures
            r == (self.path@.len() == 0),
    {
        self.path.as_str().unicode_len() == 0
    }

    /// The path to load, or `None` for the default (empty) handle.
    pub fn get(&self) -> (r: Option<&String>)
        ensures
            self.path@.len() == 0 ==> r is None,
            self.path@.len() != 0 ==> r == Some(&self.path),
    {
        if self.is_empty() {
            None
        } else {
            Some(&self.path)
        }
    }

    pub fn clear(&mut self)
        ensures
            final(self).path@ == Seq::<char>::empty(),
    {
        self.path = String::new();
    }

    /// Takes the path dropped onto the field; returns whether it changed.
    pub fn accept(&mut self, payload: Option<AssetRefPayload>) -> (changed: bool)
        ensures
            changed == (payload is Some),
            match payload {
                Some(p) => final(self).path == p.0,
                None => final(self).path == old(self).path,
            },
    {
        match payload {
            Some(p) => {
                self.path = p.0;
                true
            },
            None => false,
        }
    }

    /// Keeps the path only when it loads as an asset of the field's type.
    pub fn validate(&mut self, loads_as_expected_type: bool)
        ensures
            loads_as_expected_type ==> final(self).path == old(self).path,
            !loads_as_expected_type ==> final(self).path@ == Seq::<char>::empty(),
    {
        if !loads_as_expected_type {
            self.clear();
        }
    }
}

} // verus!
