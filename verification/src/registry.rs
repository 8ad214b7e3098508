//! The install roots of the known game libraries.

use vstd::prelude::*;

verus! {

/// The install roots, in the order in which a cleanup probes them.
pub open spec fn game_roots() -> Seq<Seq<char>> {
    seq![
        "D:\\Battle_Net"@,
        "D:\\EA_Games"@,
        "D:\\EpicGames"@,
        "D:\\GOG_Galaxy\\Games"@,
        "D:\\SteamLibrary\\steamapps\\common"@,
        "D:\\Ubisoft"@,
        "D:\\XboxGames"@,
    ]
}

/// The install roots of the known game libraries, in probing order.
pub fn get_game_root_directories() -> (roots: Vec<&'static str>)
    ensures
        roots@.len() == game_roots().len(),
        forall|i: int| 0 <= i < roots@.len() ==> (#[trigger] roots@[i])@ == game_roots()[i],
{
    let mut roots: Vec<&'static str> = Vec::new();
    roots.push("D:\\Battle_Net");
    roots.push("D:\\EA_Games");
    roots.push("D:\\EpicGames");
    roots.push("D:\\GOG_Galaxy\\Games");
    roots.push("D:\\SteamLibrary\\steamapps\\common");
    roots.push("D:\\Ubisoft");
    roots.push("D:\\XboxGames");
    roots
}

} // verus!
