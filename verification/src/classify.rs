//! Name heuristics: the game classifier and the elevation hint.
//!
//! The classifier tags a process when its name contains one of a fixed
//! list of indicator tokens, compared without regard to ASCII case.
//! The list is configuration data, not logic: matching is a plain
//! case-insensitive substring test against each token in turn.

use crate::text::{contains_bytes, contains_bytes_ci, contains_ci, contains_seq};
use vstd::prelude::*;

verus! {

/// The bytes of an ASCII string, character by character.
pub open spec fn ascii_bytes(s: Seq<char>) -> Seq<u8> {
    Seq::new(s.len(), |i: int| s[i] as u8)
}

/// The indicator tokens a process name is matched against, in the
/// order they are tried.
pub open spec fn game_indicators() -> Seq<Seq<u8>> {
    seq![
        ascii_bytes("game"@),
        ascii_bytes("steam"@),
        ascii_bytes("epic"@),
        ascii_bytes("uplay"@),
        ascii_bytes("origin"@),
        ascii_bytes("riot"@),
        ascii_bytes("valorant"@),
        ascii_bytes("league"@),
        ascii_bytes("csgo"@),
        ascii_bytes("cs2"@),
        ascii_bytes("dota"@),
        ascii_bytes("apex"@),
        ascii_bytes("fortnite"@),
        ascii_bytes("minecraft"@),
        ascii_bytes("roblox"@),
        ascii_bytes("gta"@),
        ascii_bytes("unity"@),
        ascii_bytes("unreal"@),
        ascii_bytes("dx11"@),
        ascii_bytes("dx12"@),
        ascii_bytes("vulkan"@),
    ]
}

/// A name counts as game-like exactly when some indicator token occurs
/// in it, comparing ASCII letters without regard to case.
pub open spec fn is_game_name(name: Seq<u8>) -> bool {
    exists|k: int|
        0 <= k < game_indicators().len() && contains_ci(name, #[trigger] game_indicators()[k])
}

/// The bytes of one ASCII token.
fn token(s: &str) -> (r: Vec<u8>)
    requires
        vstd::string::is_ascii(s),
    ensures
        r@ == ascii_bytes(s@),
{
    let b = s.as_bytes();
    proof {
        vstd::string::is_ascii_spec_bytes(s);
        assert(b@ =~= ascii_bytes(s@));
    }
    vstd::slice::slice_to_vec(b)
}

/// The indicator tokens as byte strings, in order.
fn indicator_list() -> (r: Vec<Vec<u8>>)
    ensures
        r@.len() == game_indicators().len(),
        forall|k: int| 0 <= k < r@.len() ==> r@[k]@ == game_indicators()[k],
{
    proof {
        reveal_strlit("game");
        reveal_strlit("steam");
        reveal_strlit("epic");
        reveal_strlit("uplay");
        reveal_strlit("origin");
        reveal_strlit("riot");
        reveal_strlit("valorant");
        reveal_strlit("league");
        reveal_strlit("csgo");
        reveal_strlit("cs2");
        reveal_strlit("dota");
        reveal_strlit("apex");
        reveal_strlit("fortnite");
        reveal_strlit("minecraft");
        reveal_strlit("roblox");
        reveal_strlit("gta");
        reveal_strlit("unity");
        reveal_strlit("unreal");
        reveal_strlit("dx11");
        reveal_strlit("dx12");
        reveal_strlit("vulkan");
    }
    let mut r: Vec<Vec<u8>> = Vec::new();
    r.push(token("game"));
    r.push(token("steam"));
    r.push(token("epic"));
    r.push(token("uplay"));
    r.push(token("origin"));
    r.push(token("riot"));
    r.push(token("valorant"));
    r.push(token("league"));
    r.push(token("csgo"));
    r.push(token("cs2"));
    r.push(token("dota"));
    r.push(token("apex"));
    r.push(token("fortnite"));
    r.push(token("minecraft"));
    r.push(token("roblox"));
    r.push(token("gta"));
    r.push(token("unity"));
    r.push(token("unreal"));
    r.push(token("dx11"));
    r.push(token("dx12"));
    r.push(token("vulkan"));
    r
}

/// Does the name denote a game-like process? True exactly when some
/// indicator token occurs in the name, without regard to ASCII case.
pub fn is_game_process(name: &Vec<u8>) -> (r: bool)
    ensures
        r == is_game_name(name@),
{
    let inds = indicator_list();
    let mut k: usize = 0;
    while k < inds.len()
        invariant
            k <= inds@.len(),
            inds@.len() == game_indicators().len(),
            forall|j: int| 0 <= j < inds@.len() ==> inds@[j]@ == game_indicators()[j],
            forall|j: int| 0 <= j < k ==> !contains_ci(name@, game_indicators()[j]),
        decreases inds@.len() - k,
    {
        if contains_bytes_ci(name, &inds[k]) {
            assert(contains_ci(name@, game_indicators()[k as int]));
            return true;
        }
        k += 1;
    }
    false
}

/// The path fragment whose presence in the temporary directory marks
/// an ordinary per-user session rather than an elevated one.
pub open spec fn user_local_marker() -> Seq<u8> {
    ascii_bytes("AppData\\Local"@)
}

/// Does the temporary-directory path carry the per-user marker? The
/// startup warning treats its absence as a hint that the process runs
/// elevated.
pub fn temp_path_is_user_local(temp_path: &Vec<u8>) -> (r: bool)
    ensures
        r == contains_seq(temp_path@, user_local_marker()),
{
    proof {
        reveal_strlit("AppData\\Local");
    }
    let marker = token("AppData\\Local");
    contains_bytes(temp_path, &marker)
}

} // verus!
