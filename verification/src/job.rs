//! Player jobs and the sprites that stand for them.

use vstd::prelude::*;

verus! {

/// A combat (or limited) job a player can be playing.
#[derive(Copy, Clone, Debug, Hash, PartialOrd, Ord, PartialEq, Eq, Structural)]
pub enum Job {
    // Tanks
    Paladin,
    Warrior,
    DarkKnight,
    Gunbreaker,
    // Pure healers
    WhiteMage,
    Astrologian,
    // Barrier healers
    Scholar,
    Sage,
    // Melee DPS
    Monk,
    Dragoon,
    Ninja,
    Samurai,
    Reaper,
    Viper,
    // Physical ranged DPS
    Bard,
    Machinist,
    Dancer,
    // Magical ranged DPS
    BlackMage,
    Summoner,
    RedMage,
    Pictomancer,
    Fisher,
    // Limited jobs
    BlueMage,
    Beastmaster,
}

/// The three-letter in-game abbreviation of a job.
pub open spec fn job_abbrev(job: Job) -> Seq<char> {
    match job {
        Job::Paladin => seq!['P', 'L', 'D'],
        Job::Warrior => seq!['W', 'A', 'R'],
        Job::DarkKnight => seq!['D', 'R', 'K'],
        Job::Gunbreaker => seq!['G', 'N', 'B'],
        Job::WhiteMage => seq!['W', 'H', 'M'],
        Job::Astrologian => seq!['A', 'S', 'T'],
        Job::Scholar => seq!['S', 'C', 'H'],
        Job::Sage => seq!['S', 'G', 'E'],
        Job::Monk => seq!['M', 'N', 'K'],
        Job::Dragoon => seq!['D', 'R', 'G'],
        Job::Ninja => seq!['N', 'I', 'N'],
        Job::Samurai => seq!['S', 'A', 'M'],
        Job::Reaper => seq!['R', 'P', 'R'],
        Job::Viper => seq!['V', 'P', 'R'],
        Job::Bard => seq!['B', 'R', 'D'],
        Job::Machinist => seq!['M', 'C', 'H'],
        Job::Dancer => seq!['D', 'N', 'C'],
        Job::BlackMage => seq!['B', 'L', 'M'],
        Job::Summoner => seq!['S', 'M', 'N'],
        Job::RedMage => seq!['R', 'D', 'M'],
        Job::Pictomancer => seq!['P', 'C', 'T'],
        Job::Fisher => seq!['F', 'S', 'H'],
        Job::BlueMage => seq!['B', 'L', 'U'],
        Job::Beastmaster => seq!['B', 'S', 'M'],
    }
}

/// An ASCII letter in lower case; any other character as it is.
pub open spec fn ascii_lower(c: char) -> char {
    if 'A' <= c && c <= 'Z' {
        ((c as u32) + 32) as char
    } else {
        c
    }
}

/// Text with its ASCII letters in lower case.
pub open spec fn ascii_lowercase(s: Seq<char>) -> Seq<char> {
    s.map_values(|c: char| ascii_lower(c))
}

/// The icon shown for a job: `sprites/jobs/` and the job's abbreviation in lower case,
/// as a PNG; the beastmaster, which has no icon of its own, uses the blank icon.
pub open spec fn job_icon_path(job: Job) -> Seq<char> {
    if job == Job::Beastmaster {
        no_job_icon_path()
    } else {
        "sprites/jobs/"@ + ascii_lowercase(job_abbrev(job)) + ".png"@
    }
}

/// The blank job icon.
pub open spec fn no_job_icon_path() -> Seq<char> {
    "sprites/jobs/none.png"@
}

impl Job {
    /// The in-game abbreviation of this job, such as `PLD` for Paladin.
    pub fn abbrev(self) -> (r: &'static str)
        ensures
            r@ == job_abbrev(self),
    {
        match self {
            Job::Paladin => {
                proof { reveal_strlit("PLD"); }
                "PLD"
            },
            Job::Warrior => {
                proof { reveal_strlit("WAR"); }
                "WAR"
            },
            Job::DarkKnight => {
                proof { reveal_strlit("DRK"); }
                "DRK"
            },
            Job::Gunbreaker => {
                proof { reveal_strlit("GNB"); }
                "GNB"
            },
            Job::WhiteMage => {
                proof { reveal_strlit("WHM"); }
                "WHM"
            },
            Job::Astrologian => {
                proof { reveal_strlit("AST"); }
                "AST"
            },
            Job::Scholar => {
                proof { reveal_strlit("SCH"); }
                "SCH"
            },
            Job::Sage => {
                proof { reveal_strlit("SGE"); }
                "SGE"
            },
            Job::Monk => {
                proof { reveal_strlit("MNK"); }
                "MNK"
            },
            Job::Dragoon => {
                proof { reveal_strlit("DRG"); }
                "DRG"
            },
            Job::Ninja => {
                proof { reveal_strlit("NIN"); }
                "NIN"
            },
            Job::Samurai => {
                proof { reveal_strlit("SAM"); }
                "SAM"
            },
            Job::Reaper => {
                proof { reveal_strlit("RPR"); }
                "RPR"
            },
            Job::Viper => {
                proof { reveal_strlit("VPR"); }
                "VPR"
            },
            Job::Bard => {
                proof { reveal_strlit("BRD"); }
                "BRD"
            },
            Job::Machinist => {
                proof { reveal_strlit("MCH"); }
                "MCH"
            },
            Job::Dancer => {
                proof { reveal_strlit("DNC"); }
                "DNC"
            },
            Job::BlackMage => {
                proof { reveal_strlit("BLM"); }
                "BLM"
            },
            Job::Summoner => {
                proof { reveal_strlit("SMN"); }
                "SMN"
            },
            Job::RedMage => {
                proof { reveal_strlit("RDM"); }
                "RDM"
            },
            Job::Pictomancer => {
                proof { reveal_strlit("PCT"); }
                "PCT"
            },
            Job::Fisher => {
                proof { reveal_strlit("FSH"); }
                "FSH"
            },
            Job::BlueMage => {
                proof { reveal_strlit("BLU"); }
                "BLU"
            },
            Job::Beastmaster => {
                proof { reveal_strlit("BSM"); }
                "BSM"
            },
        }
    }

    /// The asset path of this job's icon.
    pub fn icon_asset_path(self) -> (r: &'static str)
        ensures
            r@ == job_icon_path(self),
    {
        proof {
            reveal_strlit("sprites/jobs/");
            reveal_strlit(".png");
        }
        match self {
            Job::Paladin => {
                proof {
                    reveal_strlit("sprites/jobs/pld.png");
                    assert("sprites/jobs/pld.png"@ =~= job_icon_path(self));
                }
                "sprites/jobs/pld.png"
            },
            Job::Warrior => {
                proof {
                    reveal_strlit("sprites/jobs/war.png");
                    assert("sprites/jobs/war.png"@ =~= job_icon_path(self));
                }
                "sprites/jobs/war.png"
            },
            Job::DarkKnight => {
                proof {
                    reveal_strlit("sprites/jobs/drk.png");
                    assert("sprites/jobs/drk.png"@ =~= job_icon_path(self));
                }
                "sprites/jobs/drk.png"
            },
            Job::Gunbreaker => {
                proof {
                    reveal_strlit("sprites/jobs/gnb.png");
                    assert("sprites/jobs/gnb.png"@ =~= job_icon_path(self));
                }
                "sprites/jobs/gnb.png"
            },
            Job::WhiteMage => {
                proof {
                    reveal_strlit("sprites/jobs/whm.png");
                    assert("sprites/jobs/whm.png"@ =~= job_icon_path(self));
                }
                "sprites/jobs/whm.png"
            },
            Job::Astrologian => {
                proof {
                    reveal_strlit("sprites/jobs/ast.png");
                    assert("sprites/jobs/ast.png"@ =~= job_icon_path(self));
                }
                "sprites/jobs/ast.png"
            },
            Job::Scholar => {
                proof {
                    reveal_strlit("sprites/jobs/sch.png");
                    assert("sprites/jobs/sch.png"@ =~= job_icon_path(self));
                }
                "sprites/jobs/sch.png"
            },
            Job::Sage => {
                proof {
                    reveal_strlit("sprites/jobs/sge.png");
                    assert("sprites/jobs/sge.png"@ =~= job_icon_path(self));
                }
                "sprites/jobs/sge.png"
            },
            Job::Monk => {
                proof {
                    reveal_strlit("sprites/jobs/mnk.png");
                    assert("sprites/jobs/mnk.png"@ =~= job_icon_path(self));
                }
                "sprites/jobs/mnk.png"
            },
            Job::Dragoon => {
                proof {
                    reveal_strlit("sprites/jobs/drg.png");
                    assert("sprites/jobs/drg.png"@ =~= job_icon_path(self));
                }
                "sprites/jobs/drg.png"
            },
            Job::Ninja => {
                proof {
                    reveal_strlit("sprites/jobs/nin.png");
                    assert("sprites/jobs/nin.png"@ =~= job_icon_path(self));
                }
                "sprites/jobs/nin.png"
            },
            Job::Samurai => {
                proof {
                    reveal_strlit("sprites/jobs/sam.png");
                    assert("sprites/jobs/sam.png"@ =~= job_icon_path(self));
                }
                "sprites/jobs/sam.png"
            },
            Job::Reaper => {
                proof {
                    reveal_strlit("sprites/jobs/rpr.png");
                    assert("sprites/jobs/rpr.png"@ =~= job_icon_path(self));
                }
                "sprites/jobs/rpr.png"
            },
            Job::Viper => {
                proof {
                    reveal_strlit("sprites/jobs/vpr.png");
                    assert("sprites/jobs/vpr.png"@ =~= job_icon_path(self));
                }
                "sprites/jobs/vpr.png"
            },
            Job::Bard => {
                proof {
                    reveal_strlit("sprites/jobs/brd.png");
                    assert("sprites/jobs/brd.png"@ =~= job_icon_path(self));
                }
                "sprites/jobs/brd.png"
            },
            Job::Machinist => {
                proof {
                    reveal_strlit("sprites/jobs/mch.png");
                    assert("sprites/jobs/mch.png"@ =~= job_icon_path(self));
                }
                "sprites/jobs/mch.png"
            },
            Job::Dancer => {
                proof {
                    reveal_strlit("sprites/jobs/dnc.png");
                    assert("sprites/jobs/dnc.png"@ =~= job_icon_path(self));
                }
                "sprites/jobs/dnc.png"
            },
            Job::BlackMage => {
                proof {
                    reveal_strlit("sprites/jobs/blm.png");
                    assert("sprites/jobs/blm.png"@ =~= job_icon_path(self));
                }
                "sprites/jobs/blm.png"
            },
            Job::Summoner => {
                proof {
                    reveal_strlit("sprites/jobs/smn.png");
                    assert("sprites/jobs/smn.png"@ =~= job_icon_path(self));
                }
                "sprites/jobs/smn.png"
            },
            Job::RedMage => {
                proof {
                    reveal_strlit("sprites/jobs/rdm.png");
                    assert("sprites/jobs/rdm.png"@ =~= job_icon_path(self));
                }
                "sprites/jobs/rdm.png"
            },
            Job::Pictomancer => {
                proof {
                    reveal_strlit("sprites/jobs/pct.png");
                    assert("sprites/jobs/pct.png"@ =~= job_icon_path(self));
                }
                "sprites/jobs/pct.png"
            },
            Job::Fisher => {
                proof {
                    reveal_strlit("sprites/jobs/fsh.png");
                    assert("sprites/jobs/fsh.png"@ =~= job_icon_path(self));
                }
                "sprites/jobs/fsh.png"
            },
            Job::BlueMage => {
                proof {
                    reveal_strlit("sprites/jobs/blu.png");
                    assert("sprites/jobs/blu.png"@ =~= job_icon_path(self));
                }
                "sprites/jobs/blu.png"
            },
            Job::Beastmaster => Self::none_asset_path(),
        }
    }

    /// The asset path of the blank job icon.
    pub fn none_asset_path() -> (r: &'static str)
        ensures
            r@ == no_job_icon_path(),
    {
        "sprites/jobs/none.png"
    }
}

/// The name of a job, as it is written in the game.
pub open spec fn job_name(job: Job) -> Seq<char> {
    match job {
        Job::Paladin => "Paladin"@,
        Job::Warrior => "Warrior"@,
        Job::DarkKnight => "DarkKnight"@,
        Job::Gunbreaker => "Gunbreaker"@,
        Job::WhiteMage => "WhiteMage"@,
        Job::Astrologian => "Astrologian"@,
        Job::Scholar => "Scholar"@,
        Job::Sage => "Sage"@,
        Job::Monk => "Monk"@,
        Job::Dragoon => "Dragoon"@,
        Job::Ninja => "Ninja"@,
        Job::Samurai => "Samurai"@,
        Job::Reaper => "Reaper"@,
        Job::Viper => "Viper"@,
        Job::Bard => "Bard"@,
        Job::Machinist => "Machinist"@,
        Job::Dancer => "Dancer"@,
        Job::BlackMage => "BlackMage"@,
        Job::Summoner => "Summoner"@,
        Job::RedMage => "RedMage"@,
        Job::Pictomancer => "Pictomancer"@,
        Job::Fisher => "Fisher"@,
        Job::BlueMage => "BlueMage"@,
        Job::Beastmaster => "Beastmaster"@,
    }
}

/// An ASCII letter in upper case; any other character as it is.
pub open spec fn ascii_upper(c: char) -> char {
    if 'a' <= c && c <= 'z' {
        ((c as u32) - 32) as char
    } else {
        c
    }
}

/// The characters of `a` appear in `b` in the same order, `b`'s letters taken in upper
/// case.
pub open spec fn drawn_from(a: Seq<char>, b: Seq<char>) -> bool
    decreases b.len(),
{
    if a.len() == 0 {
        true
    } else if b.len() == 0 {
        false
    } else if a[0] == ascii_upper(b[0]) {
        drawn_from(a.drop_first(), b.drop_first())
    } else {
        drawn_from(a, b.drop_first())
    }
}

/// Every abbreviation is made of letters of the job's own name, in the order they appear
/// there, starting with its first letter.
pub proof fn lemma_abbrev_from_name(job: Job)
    ensures
        job_abbrev(job)[0] == ascii_upper(job_name(job)[0]),
        drawn_from(job_abbrev(job), job_name(job)),
{
    match job {
        Job::Paladin => reveal_strlit("Paladin"),
        Job::Warrior => reveal_strlit("Warrior"),
        Job::DarkKnight => reveal_strlit("DarkKnight"),
        Job::Gunbreaker => reveal_strlit("Gunbreaker"),
        Job::WhiteMage => reveal_strlit("WhiteMage"),
        Job::Astrologian => reveal_strlit("Astrologian"),
        Job::Scholar => reveal_strlit("Scholar"),
        Job::Sage => reveal_strlit("Sage"),
        Job::Monk => reveal_strlit("Monk"),
        Job::Dragoon => reveal_strlit("Dragoon"),
        Job::Ninja => reveal_strlit("Ninja"),
        Job::Samurai => reveal_strlit("Samurai"),
        Job::Reaper => reveal_strlit("Reaper"),
        Job::Viper => reveal_strlit("Viper"),
        Job::Bard => reveal_strlit("Bard"),
        Job::Machinist => reveal_strlit("Machinist"),
        Job::Dancer => reveal_strlit("Dancer"),
        Job::BlackMage => reveal_strlit("BlackMage"),
        Job::Summoner => reveal_strlit("Summoner"),
        Job::RedMage => reveal_strlit("RedMage"),
        Job::Pictomancer => reveal_strlit("Pictomancer"),
        Job::Fisher => reveal_strlit("Fisher"),
        Job::BlueMage => reveal_strlit("BlueMage"),
        Job::Beastmaster => reveal_strlit("Beastmaster"),
    }
    reveal_with_fuel(drawn_from, 12);
}

/// Each job has an abbreviation of its own, three capital letters; and each job but
/// the beastmaster has an icon of its own, named after its abbreviation in lower case.
pub proof fn lemma_job_icons(a: Job, b: Job)
    ensures
        job_abbrev(a).len() == 3,
        forall|i: int| 0 <= i < 3 ==> 'A' <= #[trigger] job_abbrev(a)[i] && job_abbrev(a)[i] <= 'Z',
        job_abbrev(a) == job_abbrev(b) ==> a == b,
        a != Job::Beastmaster ==> job_icon_path(a) == "sprites/jobs/"@ + ascii_lowercase(job_abbrev(a)) + ".png"@,
        a != Job::Beastmaster && b != Job::Beastmaster && job_icon_path(a) == job_icon_path(b) ==> a == b,
{
    reveal_strlit("sprites/jobs/");
    if job_abbrev(a) == job_abbrev(b) {
        assert(job_abbrev(a)[0] == job_abbrev(b)[0]);
        assert(job_abbrev(a)[1] == job_abbrev(b)[1]);
        assert(job_abbrev(a)[2] == job_abbrev(b)[2]);
    }
    if a != Job::Beastmaster && b != Job::Beastmaster && job_icon_path(a) == job_icon_path(b) {
        let la = ascii_lowercase(job_abbrev(a));
        let lb = ascii_lowercase(job_abbrev(b));
        assert(job_icon_path(a).subrange(13, 16) =~= la);
        assert(job_icon_path(b).subrange(13, 16) =~= lb);
        assert(la[0] == lb[0] && la[1] == lb[1] && la[2] == lb[2]);
        assert(job_abbrev(a) =~= job_abbrev(b));
    }
}

/// The sprite of a player on the board: the icon of its job, if it has one.
#[derive(Copy, Default, Clone, Hash, PartialEq, Eq, Ord, PartialOrd, Debug, Structural)]
pub struct PlayerSprite {
    pub job: Option<Job>,
}

/// The asset path a player sprite is drawn with.
pub open spec fn sprite_path(sprite: PlayerSprite) -> Seq<char> {
    match sprite.job {
        Some(job) => job_icon_path(job),
        None => no_job_icon_path(),
    }
}

impl PlayerSprite {
    /// The asset path of the icon this sprite is drawn with.
    pub fn asset_path(self) -> (r: &'static str)
        ensures
            r@ == sprite_path(self),
    {
        match self.job {
            Some(job) => job.icon_asset_path(),
            None => Job::none_asset_path(),
        }
    }
}

} // verus!
