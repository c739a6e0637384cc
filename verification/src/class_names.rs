//! The names of classes: how they are printed and how they are read.
use vstd::prelude::*;
use vstd::string::*;
use crate::primitives::Class;

verus! {

/// Whether two strings hold the same characters.
pub fn str_eq(a: &str, b: &str) -> (r: bool)
    ensures
        r == (a@ == b@),
{
    let n = a.unicode_len();
    if n != b.unicode_len() {
        return false;
    }
    let mut i: usize = 0;
    while i < n
        invariant
            n == a@.len(),
            n == b@.len(),
            i <= n,
            forall|j: int| 0 <= j < i ==> a@[j] == b@[j],
        decreases n - i,
    {
        if a.get_char(i) != b.get_char(i) {
            return false;
        }
        i += 1;
    }
    assert(a@ =~= b@);
    true
}

/// The name of a class as the game prints it.
pub open spec fn class_debug_name(c: Class) -> Seq<char> {
    match c {
        Class::Dummy => "Dummy"@,
        Class::Warrior => "Warrior"@,
        Class::Huntress => "Huntress"@,
        Class::Pyro => "Pyro"@,
        Class::Cursed => "Cursed"@,
        Class::Beastmaster => "Beastmaster"@,
        Class::Assassin => "Assassin"@,
        Class::Monk => "Monk"@,
        Class::Ogre => "Ogre"@,
        Class::Vampire => "Vampire"@,
        Class::Spider => "Spider"@,
        Class::Demon => "Demon"@,
        Class::Flora => "Flora"@,
        Class::Wall => "Wall"@,
        Class::Piper => "Piper"@,
        Class::Troupe => "Troupe"@,
        Class::Ooze => "Ooze"@,
    }
}

/// The name of a class as the game prints it.
pub fn class_debug_str(c: Class) -> (r: &'static str)
    ensures
        r@ == class_debug_name(c),
{
    match c {
        Class::Dummy => "Dummy",
        Class::Warrior => "Warrior",
        Class::Huntress => "Huntress",
        Class::Pyro => "Pyro",
        Class::Cursed => "Cursed",
        Class::Beastmaster => "Beastmaster",
        Class::Assassin => "Assassin",
        Class::Monk => "Monk",
        Class::Ogre => "Ogre",
        Class::Vampire => "Vampire",
        Class::Spider => "Spider",
        Class::Demon => "Demon",
        Class::Flora => "Flora",
        Class::Wall => "Wall",
        Class::Piper => "Piper",
        Class::Troupe => "Troupe",
        Class::Ooze => "Ooze",
    }
}

/// The class that a lower-case name names, as command lines write classes.
pub open spec fn spec_class_from_str(s: Seq<char>) -> Option<Class> {
    if s == "dummy"@ {
        Some(Class::Dummy)
    } else if s == "warrior"@ {
        Some(Class::Warrior)
    } else if s == "huntress"@ {
        Some(Class::Huntress)
    } else if s == "pyro"@ {
        Some(Class::Pyro)
    } else if s == "cursed"@ {
        Some(Class::Cursed)
    } else if s == "beastmaster"@ {
        Some(Class::Beastmaster)
    } else if s == "assassin"@ {
        Some(Class::Assassin)
    } else if s == "monk"@ {
        Some(Class::Monk)
    } else if s == "ogre"@ {
        Some(Class::Ogre)
    } else if s == "vampire"@ {
        Some(Class::Vampire)
    } else if s == "spider"@ {
        Some(Class::Spider)
    } else if s == "demon"@ {
        Some(Class::Demon)
    } else if s == "flora"@ {
        Some(Class::Flora)
    } else if s == "wall"@ {
        Some(Class::Wall)
    } else if s == "piper"@ {
        Some(Class::Piper)
    } else if s == "troupe"@ {
        Some(Class::Troupe)
    } else if s == "ooze"@ {
        Some(Class::Ooze)
    } else {
        None
    }
}

/// Reads a class from its lower-case name.
pub fn class_from_str(s: &str) -> (r: Option<Class>)
    ensures
        r == spec_class_from_str(s@),
{
    if str_eq(s, "dummy") {
        Some(Class::Dummy)
    } else if str_eq(s, "warrior") {
        Some(Class::Warrior)
    } else if str_eq(s, "huntress") {
        Some(Class::Huntress)
    } else if str_eq(s, "pyro") {
        Some(Class::Pyro)
    } else if str_eq(s, "cursed") {
        Some(Class::Cursed)
    } else if str_eq(s, "beastmaster") {
        Some(Class::Beastmaster)
    } else if str_eq(s, "assassin") {
        Some(Class::Assassin)
    } else if str_eq(s, "monk") {
        Some(Class::Monk)
    } else if str_eq(s, "ogre") {
        Some(Class::Ogre)
    } else if str_eq(s, "vampire") {
        Some(Class::Vampire)
    } else if str_eq(s, "spider") {
        Some(Class::Spider)
    } else if str_eq(s, "demon") {
        Some(Class::Demon)
    } else if str_eq(s, "flora") {
        Some(Class::Flora)
    } else if str_eq(s, "wall") {
        Some(Class::Wall)
    } else if str_eq(s, "piper") {
        Some(Class::Piper)
    } else if str_eq(s, "troupe") {
        Some(Class::Troupe)
    } else if str_eq(s, "ooze") {
        Some(Class::Ooze)
    } else {
        None
    }
}


/// The name of a class as command lines write it: lower case, as
/// `spec_class_from_str` reads it.
pub open spec fn class_arg_name(c: Class) -> Seq<char> {
    match c {
        Class::Dummy => "dummy"@,
        Class::Warrior => "warrior"@,
        Class::Huntress => "huntress"@,
        Class::Pyro => "pyro"@,
        Class::Cursed => "cursed"@,
        Class::Beastmaster => "beastmaster"@,
        Class::Assassin => "assassin"@,
        Class::Monk => "monk"@,
        Class::Ogre => "ogre"@,
        Class::Vampire => "vampire"@,
        Class::Spider => "spider"@,
        Class::Demon => "demon"@,
        Class::Flora => "flora"@,
        Class::Wall => "wall"@,
        Class::Piper => "piper"@,
        Class::Troupe => "troupe"@,
        Class::Ooze => "ooze"@,
    }
}

/// Reading the command-line name of a class gives the class back; no name
/// holds a `.`.
pub proof fn lemma_class_arg_name_round_trip(c: Class)
    ensures
        spec_class_from_str(class_arg_name(c)) == Some(c),
        !class_arg_name(c).contains('.'),
{
    match c {
        Class::Dummy => {
            reveal_strlit("dummy");
            assert(!"dummy"@.contains('.'));
        },
        Class::Warrior => {
            reveal_strlit("warrior");
            reveal_strlit("dummy");
            assert("warrior"@.len() != "dummy"@.len());
            assert(!"warrior"@.contains('.'));
        },
        Class::Huntress => {
            reveal_strlit("huntress");
            reveal_strlit("dummy");
            assert("huntress"@.len() != "dummy"@.len());
            reveal_strlit("warrior");
            assert("huntress"@.len() != "warrior"@.len());
            assert(!"huntress"@.contains('.'));
        },
        Class::Pyro => {
            reveal_strlit("pyro");
            reveal_strlit("dummy");
            assert("pyro"@.len() != "dummy"@.len());
            reveal_strlit("warrior");
            assert("pyro"@.len() != "warrior"@.len());
            reveal_strlit("huntress");
            assert("pyro"@.len() != "huntress"@.len());
            assert(!"pyro"@.contains('.'));
        },
        Class::Cursed => {
            reveal_strlit("cursed");
            reveal_strlit("dummy");
            assert("cursed"@.len() != "dummy"@.len());
            reveal_strlit("warrior");
            assert("cursed"@.len() != "warrior"@.len());
            reveal_strlit("huntress");
            assert("cursed"@.len() != "huntress"@.len());
            reveal_strlit("pyro");
            assert("cursed"@.len() != "pyro"@.len());
            assert(!"cursed"@.contains('.'));
        },
        Class::Beastmaster => {
            reveal_strlit("beastmaster");
            reveal_strlit("dummy");
            assert("beastmaster"@.len() != "dummy"@.len());
            reveal_strlit("warrior");
            assert("beastmaster"@.len() != "warrior"@.len());
            reveal_strlit("huntress");
            assert("beastmaster"@.len() != "huntress"@.len());
            reveal_strlit("pyro");
            assert("beastmaster"@.len() != "pyro"@.len());
            reveal_strlit("cursed");
            assert("beastmaster"@.len() != "cursed"@.len());
            assert(!"beastmaster"@.contains('.'));
        },
        Class::Assassin => {
            reveal_strlit("assassin");
            reveal_strlit("dummy");
            assert("assassin"@.len() != "dummy"@.len());
            reveal_strlit("warrior");
            assert("assassin"@.len() != "warrior"@.len());
            reveal_strlit("huntress");
            assert("assassin"@[0] != "huntress"@[0]);
            reveal_strlit("pyro");
            assert("assassin"@.len() != "pyro"@.len());
            reveal_strlit("cursed");
            assert("assassin"@.len() != "cursed"@.len());
            reveal_strlit("beastmaster");
            assert("assassin"@.len() != "beastmaster"@.len());
            assert(!"assassin"@.contains('.'));
        },
        Class::Monk => {
            reveal_strlit("monk");
            reveal_strlit("dummy");
            assert("monk"@.len() != "dummy"@.len());
            reveal_strlit("warrior");
            assert("monk"@.len() != "warrior"@.len());
            reveal_strlit("huntress");
            assert("monk"@.len() != "huntress"@.len());
            reveal_strlit("pyro");
            assert("monk"@[0] != "pyro"@[0]);
            reveal_strlit("cursed");
            assert("monk"@.len() != "cursed"@.len());
            reveal_strlit("beastmaster");
            assert("monk"@.len() != "beastmaster"@.len());
            reveal_strlit("assassin");
            assert("monk"@.len() != "assassin"@.len());
            assert(!"monk"@.contains('.'));
        },
        Class::Ogre => {
            reveal_strlit("ogre");
            reveal_strlit("dummy");
            assert("ogre"@.len() != "dummy"@.len());
            reveal_strlit("warrior");
            assert("ogre"@.len() != "warrior"@.len());
            reveal_strlit("huntress");
            assert("ogre"@.len() != "huntress"@.len());
            reveal_strlit("pyro");
            assert("ogre"@[0] != "pyro"@[0]);
            reveal_strlit("cursed");
            assert("ogre"@.len() != "cursed"@.len());
            reveal_strlit("beastmaster");
            assert("ogre"@.len() != "beastmaster"@.len());
            reveal_strlit("assassin");
            assert("ogre"@.len() != "assassin"@.len());
            reveal_strlit("monk");
            assert("ogre"@[0] != "monk"@[0]);
            assert(!"ogre"@.contains('.'));
        },
        Class::Vampire => {
            reveal_strlit("vampire");
            reveal_strlit("dummy");
            assert("vampire"@.len() != "dummy"@.len());
            reveal_strlit("warrior");
            assert("vampire"@[0] != "warrior"@[0]);
            reveal_strlit("huntress");
            assert("vampire"@.len() != "huntress"@.len());
            reveal_strlit("pyro");
            assert("vampire"@.len() != "pyro"@.len());
            reveal_strlit("cursed");
            assert("vampire"@.len() != "cursed"@.len());
            reveal_strlit("beastmaster");
            assert("vampire"@.len() != "beastmaster"@.len());
            reveal_strlit("assassin");
            assert("vampire"@.len() != "assassin"@.len());
            reveal_strlit("monk");
            assert("vampire"@.len() != "monk"@.len());
            reveal_strlit("ogre");
            assert("vampire"@.len() != "ogre"@.len());
            assert(!"vampire"@.contains('.'));
        },
        Class::Spider => {
            reveal_strlit("spider");
            reveal_strlit("dummy");
            assert("spider"@.len() != "dummy"@.len());
            reveal_strlit("warrior");
            assert("spider"@.len() != "warrior"@.len());
            reveal_strlit("huntress");
            assert("spider"@.len() != "huntress"@.len());
            reveal_strlit("pyro");
            assert("spider"@.len() != "pyro"@.len());
            reveal_strlit("cursed");
            assert("spider"@[0] != "cursed"@[0]);
            reveal_strlit("beastmaster");
            assert("spider"@.len() != "beastmaster"@.len());
            reveal_strlit("assassin");
            assert("spider"@.len() != "assassin"@.len());
            reveal_strlit("monk");
            assert("spider"@.len() != "monk"@.len());
            reveal_strlit("ogre");
            assert("spider"@.len() != "ogre"@.len());
            reveal_strlit("vampire");
            assert("spider"@.len() != "vampire"@.len());
            assert(!"spider"@.contains('.'));
        },
        Class::Demon => {
            reveal_strlit("demon");
            reveal_strlit("dummy");
            assert("demon"@[1] != "dummy"@[1]);
            reveal_strlit("warrior");
            assert("demon"@.len() != "warrior"@.len());
            reveal_strlit("huntress");
            assert("demon"@.len() != "huntress"@.len());
            reveal_strlit("pyro");
            assert("demon"@.len() != "pyro"@.len());
            reveal_strlit("cursed");
            assert("demon"@.len() != "cursed"@.len());
            reveal_strlit("beastmaster");
            assert("demon"@.len() != "beastmaster"@.len());
            reveal_strlit("assassin");
            assert("demon"@.len() != "assassin"@.len());
            reveal_strlit("monk");
            assert("demon"@.len() != "monk"@.len());
            reveal_strlit("ogre");
            assert("demon"@.len() != "ogre"@.len());
            reveal_strlit("vampire");
            assert("demon"@.len() != "vampire"@.len());
            reveal_strlit("spider");
            assert("demon"@.len() != "spider"@.len());
            assert(!"demon"@.contains('.'));
        },
        Class::Flora => {
            reveal_strlit("flora");
            reveal_strlit("dummy");
            assert("flora"@[0] != "dummy"@[0]);
            reveal_strlit("warrior");
            assert("flora"@.len() != "warrior"@.len());
            reveal_strlit("huntress");
            assert("flora"@.len() != "huntress"@.len());
            reveal_strlit("pyro");
            assert("flora"@.len() != "pyro"@.len());
            reveal_strlit("cursed");
            assert("flora"@.len() != "cursed"@.len());
            reveal_strlit("beastmaster");
            assert("flora"@.len() != "beastmaster"@.len());
            reveal_strlit("assassin");
            assert("flora"@.len() != "assassin"@.len());
            reveal_strlit("monk");
            assert("flora"@.len() != "monk"@.len());
            reveal_strlit("ogre");
            assert("flora"@.len() != "ogre"@.len());
            reveal_strlit("vampire");
            assert("flora"@.len() != "vampire"@.len());
            reveal_strlit("spider");
            assert("flora"@.len() != "spider"@.len());
            reveal_strlit("demon");
            assert("flora"@[0] != "demon"@[0]);
            assert(!"flora"@.contains('.'));
        },
        Class::Wall => {
            reveal_strlit("wall");
            reveal_strlit("dummy");
            assert("wall"@.len() != "dummy"@.len());
            reveal_strlit("warrior");
            assert("wall"@.len() != "warrior"@.len());
            reveal_strlit("huntress");
            assert("wall"@.len() != "huntress"@.len());
            reveal_strlit("pyro");
            assert("wall"@[0] != "pyro"@[0]);
            reveal_strlit("cursed");
            assert("wall"@.len() != "cursed"@.len());
            reveal_strlit("beastmaster");
            assert("wall"@.len() != "beastmaster"@.len());
            reveal_strlit("assassin");
            assert("wall"@.len() != "assassin"@.len());
            reveal_strlit("monk");
            assert("wall"@[0] != "monk"@[0]);
            reveal_strlit("ogre");
            assert("wall"@[0] != "ogre"@[0]);
            reveal_strlit("vampire");
            assert("wall"@.len() != "vampire"@.len());
            reveal_strlit("spider");
            assert("wall"@.len() != "spider"@.len());
            reveal_strlit("demon");
            assert("wall"@.len() != "demon"@.len());
            reveal_strlit("flora");
            assert("wall"@.len() != "flora"@.len());
            assert(!"wall"@.contains('.'));
        },
        Class::Piper => {
            reveal_strlit("piper");
            reveal_strlit("dummy");
            assert("piper"@[0] != "dummy"@[0]);
            reveal_strlit("warrior");
            assert("piper"@.len() != "warrior"@.len());
            reveal_strlit("huntress");
            assert("piper"@.len() != "huntress"@.len());
            reveal_strlit("pyro");
            assert("piper"@.len() != "pyro"@.len());
            reveal_strlit("cursed");
            assert("piper"@.len() != "cursed"@.len());
            reveal_strlit("beastmaster");
            assert("piper"@.len() != "beastmaster"@.len());
            reveal_strlit("assassin");
            assert("piper"@.len() != "assassin"@.len());
            reveal_strlit("monk");
            assert("piper"@.len() != "monk"@.len());
            reveal_strlit("ogre");
            assert("piper"@.len() != "ogre"@.len());
            reveal_strlit("vampire");
            assert("piper"@.len() != "vampire"@.len());
            reveal_strlit("spider");
            assert("piper"@.len() != "spider"@.len());
            reveal_strlit("demon");
            assert("piper"@[0] != "demon"@[0]);
            reveal_strlit("flora");
            assert("piper"@[0] != "flora"@[0]);
            reveal_strlit("wall");
            assert("piper"@.len() != "wall"@.len());
            assert(!"piper"@.contains('.'));
        },
        Class::Troupe => {
            reveal_strlit("troupe");
            reveal_strlit("dummy");
            assert("troupe"@.len() != "dummy"@.len());
            reveal_strlit("warrior");
            assert("troupe"@.len() != "warrior"@.len());
            reveal_strlit("huntress");
            assert("troupe"@.len() != "huntress"@.len());
            reveal_strlit("pyro");
            assert("troupe"@.len() != "pyro"@.len());
            reveal_strlit("cursed");
            assert("troupe"@[0] != "cursed"@[0]);
            reveal_strlit("beastmaster");
            assert("troupe"@.len() != "beastmaster"@.len());
            reveal_strlit("assassin");
            assert("troupe"@.len() != "assassin"@.len());
            reveal_strlit("monk");
            assert("troupe"@.len() != "monk"@.len());
            reveal_strlit("ogre");
            assert("troupe"@.len() != "ogre"@.len());
            reveal_strlit("vampire");
            assert("troupe"@.len() != "vampire"@.len());
            reveal_strlit("spider");
            assert("troupe"@[0] != "spider"@[0]);
            reveal_strlit("demon");
            assert("troupe"@.len() != "demon"@.len());
            reveal_strlit("flora");
            assert("troupe"@.len() != "flora"@.len());
            reveal_strlit("wall");
            assert("troupe"@.len() != "wall"@.len());
            reveal_strlit("piper");
            assert("troupe"@.len() != "piper"@.len());
            assert(!"troupe"@.contains('.'));
        },
        Class::Ooze => {
            reveal_strlit("ooze");
            reveal_strlit("dummy");
            assert("ooze"@.len() != "dummy"@.len());
            reveal_strlit("warrior");
            assert("ooze"@.len() != "warrior"@.len());
            reveal_strlit("huntress");
            assert("ooze"@.len() != "huntress"@.len());
            reveal_strlit("pyro");
            assert("ooze"@[0] != "pyro"@[0]);
            reveal_strlit("cursed");
            assert("ooze"@.len() != "cursed"@.len());
            reveal_strlit("beastmaster");
            assert("ooze"@.len() != "beastmaster"@.len());
            reveal_strlit("assassin");
            assert("ooze"@.len() != "assassin"@.len());
            reveal_strlit("monk");
            assert("ooze"@[0] != "monk"@[0]);
            reveal_strlit("ogre");
            assert("ooze"@[1] != "ogre"@[1]);
            reveal_strlit("vampire");
            assert("ooze"@.len() != "vampire"@.len());
            reveal_strlit("spider");
            assert("ooze"@.len() != "spider"@.len());
            reveal_strlit("demon");
            assert("ooze"@.len() != "demon"@.len());
            reveal_strlit("flora");
            assert("ooze"@.len() != "flora"@.len());
            reveal_strlit("wall");
            assert("ooze"@[0] != "wall"@[0]);
            reveal_strlit("piper");
            assert("ooze"@.len() != "piper"@.len());
            reveal_strlit("troupe");
            assert("ooze"@.len() != "troupe"@.len());
            assert(!"ooze"@.contains('.'));
        },
    }
}

} // verus!
