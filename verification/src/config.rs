//! Where a game lives on disk: the fixed directory and file below the
//! user's home directory. Only the paths are computed here; all file
//! access stays outside the library.

use vstd::prelude::*;
use vstd::string::StringExecFns;

verus! {

/// The storage locations of one game, as path strings.
pub struct Config {
    pub game_directory: String,
    pub game_file_path: String,
}

impl Config {
    /// The game directory `<home>/.caru` and the save file
    /// `<home>/.caru/game.json` below the given home directory.
    pub fn build(home_dir: &str) -> (r: Config)
        ensures
            r.game_directory@ == home_dir@ + "/.caru"@,
            r.game_file_path@ == home_dir@ + "/.caru/game.json"@,
    {
        let mut game_dir = home_dir.to_owned();
        game_dir.append("/.caru");
        let mut game_file_path = game_dir.clone();
        game_file_path.append("/game.json");
        proof {
            reveal_strlit("/.caru");
            reveal_strlit("/game.json");
            reveal_strlit("/.caru/game.json");
            assert(home_dir@ + "/.caru"@ + "/game.json"@ =~= home_dir@ + "/.caru/game.json"@);
        }
        Config { game_directory: game_dir, game_file_path }
    }
}

} // verus!
