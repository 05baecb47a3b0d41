use vstd::prelude::*;

verus! {

/// Where the game's asset files live.
pub struct AssetPaths;

impl AssetPaths {
    /// The assets directory.
    pub fn assets_dir() -> (s: &'static str)
        ensures
            s@ == "assets"@,
    {
        "assets"
    }

    /// The sprites directory, inside the assets directory.
    pub fn sprites_dir() -> (s: String)
        ensures
            s@ == "assets"@ + "/sprites"@,
    {
        let mut s = String::from_str(Self::assets_dir());
        s.append("/sprites");
        s
    }

    /// The path of sprite file `name`, inside the sprites directory.
    pub fn sprite(name: &str) -> (s: String)
        ensures
            s@ == "assets"@ + "/sprites"@ + "/"@ + name@,
    {
        let mut s = Self::sprites_dir();
        s.append("/");
        s.append(name);
        s
    }
}

} // verus!
