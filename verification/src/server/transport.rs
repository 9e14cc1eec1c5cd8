//! How the server is reached.

use crate::text::{pieces, split_pieces, text_view, trim, trimmed, views};
use vstd::prelude::*;
use vstd::string::*;

verus! {

/// The origins that a setting lists, without blanks and empty ones.
pub open spec fn listed_origins(parts: Seq<Seq<char>>) -> Seq<Seq<char>>
    decreases parts.len(),
{
    if parts.len() == 0 {
        Seq::empty()
    } else if trimmed(parts.last()).len() == 0 {
        listed_origins(parts.drop_last())
    } else {
        listed_origins(parts.drop_last()).push(trimmed(parts.last()))
    }
}

/// The origins that requests may come from, by a list with commas; none where
/// the setting is missing or blank, and then they may come from anywhere.
pub open spec fn allowed_origins(setting: Option<Seq<char>>) -> Option<Seq<Seq<char>>> {
    match setting {
        Some(raw) => if trimmed(raw).len() > 0 {
            Some(listed_origins(pieces(raw, ',')))
        } else {
            None
        },
        None => None,
    }
}

pub fn origin_policy(setting: Option<&str>) -> (r: Option<Vec<String>>)
    ensures
        match r {
            Some(origins) => allowed_origins(text_view(setting)) == Some(views(origins@)),
            None => allowed_origins(text_view(setting)) is None,
        },
{
    let raw = match setting {
        Some(raw) => raw,
        None => return None,
    };
    if trim(raw).is_empty() {
        return None;
    }
    let parts = split_pieces(raw, ',');
    let ghost all = views(parts@);
    let mut origins: Vec<String> = Vec::new();
    let n: usize = parts.len();
    let mut i: usize = 0;
    assert(all.take(0) =~= Seq::<Seq<char>>::empty());
    assert(views(origins@) =~= Seq::empty());
    while i < n
        invariant
            i <= n == parts@.len(),
            all == views(parts@),
            views(origins@) == listed_origins(all.take(i as int)),
        decreases n - i,
    {
        assert(all.take(i + 1).drop_last() =~= all.take(i as int));
        assert(all.take(i + 1).last() == parts@[i as int]@);
        let origin = trim(parts[i].as_str());
        if !origin.is_empty() {
            let ghost was = origins@;
            origins.push(origin.to_string());
            assert(views(origins@) =~= views(was).push(origin@));
        }
        i = i + 1;
    }
    assert(all.take(n as int) =~= all);
    Some(origins)
}

/// The address to listen on; none where the setting is missing or empty.
pub fn bind_address(setting: Option<&str>) -> (r: Option<&str>)
    ensures
        text_view(r) == if setting is Some && setting->0@.len() > 0 {
            text_view(setting)
        } else {
            None
        },
{
    match setting {
        Some(addr) => if addr.is_empty() {
            None
        } else {
            Some(addr)
        },
        None => None,
    }
}

} // verus!
