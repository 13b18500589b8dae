//! The command line of the program.
use crate::text::{is_text, starts_with_text, to_chars};
use vstd::prelude::*;
use vstd::slice::slice_subrange;

verus! {

/// How fast the boot animation runs.
#[derive(Clone, Copy, Debug, PartialEq, Eq, Structural)]
pub enum BootSpeed {
    Fast,
    Normal,
    Slow,
    Off,
}

/// An argument that leaves out the launch menu.
pub open spec fn skips_menu(arg: Seq<char>) -> bool {
    arg == "--skip-menu"@ || arg == "-s"@
}

/// One of the arguments leaves out the launch menu.
pub open spec fn any_skips_menu(args: Seq<Seq<char>>) -> bool {
    exists|i: int| 0 <= i < args.len() && skips_menu(#[trigger] args[i])
}

/// The speed with this name; any other name is taken for the normal one.
pub open spec fn speed_named(name: Seq<char>) -> BootSpeed {
    if name == "fast"@ {
        BootSpeed::Fast
    } else if name == "slow"@ {
        BootSpeed::Slow
    } else if name == "off"@ {
        BootSpeed::Off
    } else {
        BootSpeed::Normal
    }
}

/// The speed that one argument asks for.
pub open spec fn speed_of(arg: Seq<char>) -> BootSpeed {
    if "--boot-speed="@.is_prefix_of(arg) {
        speed_named(arg.skip("--boot-speed="@.len() as int))
    } else {
        BootSpeed::Normal
    }
}

/// The speed that the first argument that is about it asks for, from place `i`
/// on.
pub open spec fn speed_from(args: Seq<Seq<char>>, i: int) -> BootSpeed
    decreases args.len() - i,
{
    if i < 0 || i >= args.len() {
        BootSpeed::Normal
    } else if "--boot-speed"@.is_prefix_of(args[i]) {
        speed_of(args[i])
    } else {
        speed_from(args, i + 1)
    }
}

/// Whether the launch menu is to be left out (`--skip-menu` or `-s`).
pub fn skip_menu(args: &Vec<String>) -> (skip: bool)
    ensures
        skip == any_skips_menu(args@.map_values(|s: String| s@)),
{
    let ghost texts = args@.map_values(|s: String| s@);
    let mut i: usize = 0;
    while i < args.len()
        invariant
            i <= args@.len(),
            texts == args@.map_values(|s: String| s@),
            forall|j: int| 0 <= j < i ==> !skips_menu(#[trigger] texts[j]),
        decreases args.len() - i,
    {
        let arg = to_chars(args[i].as_str());
        if is_text(arg.as_slice(), "--skip-menu") || is_text(arg.as_slice(), "-s") {
            assert(skips_menu(texts[i as int]));
            return true;
        }
        i += 1;
    }
    false
}

/// The speed of the boot animation: `--boot-speed=fast|normal|slow|off`
/// (default: normal). Only the first argument about it counts.
pub fn boot_speed(args: &Vec<String>) -> (speed: BootSpeed)
    ensures
        speed == speed_from(args@.map_values(|s: String| s@), 0),
{
    let ghost texts = args@.map_values(|s: String| s@);
    let mut i: usize = 0;
    while i < args.len()
        invariant
            i <= args@.len(),
            texts == args@.map_values(|s: String| s@),
            speed_from(texts, 0) == speed_from(texts, i as int),
        decreases args.len() - i,
    {
        assert(texts[i as int] == args@[i as int]@);
        let arg = to_chars(args[i].as_str());
        if starts_with_text(arg.as_slice(), "--boot-speed") {
            if starts_with_text(arg.as_slice(), "--boot-speed=") {
                let key = to_chars("--boot-speed=");
                let name = slice_subrange(arg.as_slice(), key.len(), arg.len());
                assert(name@ == arg@.skip(key@.len() as int));
                return named_speed(name);
            }
            return BootSpeed::Normal;
        }
        i += 1;
    }
    BootSpeed::Normal
}

fn named_speed(name: &[char]) -> (speed: BootSpeed)
    ensures
        speed == speed_named(name@),
{
    if is_text(name, "fast") {
        BootSpeed::Fast
    } else if is_text(name, "slow") {
        BootSpeed::Slow
    } else if is_text(name, "off") {
        BootSpeed::Off
    } else {
        BootSpeed::Normal
    }
}

/// The menu is left out if one of the arguments, wherever it stands, is
/// `--skip-menu` or `-s`, to the letter; and otherwise it is shown.
pub proof fn law_what_skips_the_menu(args: &Vec<String>, skip: bool)
    requires
        call_ensures(skip_menu, (args,), skip),
    ensures
        forall|i: int| 0 <= i < args@.len() && #[trigger] args@[i]@ == "--skip-menu"@ ==> skip,
        forall|i: int| 0 <= i < args@.len() && #[trigger] args@[i]@ == "-s"@ ==> skip,
        (forall|i: int| 0 <= i < args@.len() ==> #[trigger] args@[i]@ != "--skip-menu"@ && args@[i]@ != "-s"@)
            ==> !skip,
{
    let texts = args@.map_values(|s: String| s@);
    assert forall|i: int|
        0 <= i < args@.len() && (#[trigger] args@[i]@ == "--skip-menu"@ || args@[i]@ == "-s"@) implies skip by {
        assert(skips_menu(texts[i]));
    }
    if skip {
        let i = choose|i: int| 0 <= i < texts.len() && skips_menu(#[trigger] texts[i]);
        assert(args@[i]@ == "--skip-menu"@ || args@[i]@ == "-s"@);
    }
}

/// The first argument that starts with `--boot-speed` decides, whatever stands
/// behind it: `fast`, `slow` or `off` behind an equals sign name a speed, and
/// anything else is the normal one.
pub proof fn law_the_first_boot_speed_counts(args: &Vec<String>, i: int, rest: Seq<char>, speed: BootSpeed)
    requires
        call_ensures(boot_speed, (args,), speed),
        0 <= i < args@.len(),
        args@[i]@ == "--boot-speed"@ + rest,
        forall|j: int| 0 <= j < i ==> !"--boot-speed"@.is_prefix_of((#[trigger] args@[j])@),
    ensures
        speed is Fast <==> rest == "=fast"@,
        speed is Slow <==> rest == "=slow"@,
        speed is Off <==> rest == "=off"@,
        speed is Normal <==> rest != "=fast"@ && rest != "=slow"@ && rest != "=off"@,
{
    let texts = args@.map_values(|s: String| s@);
    lemma_speed_from(texts, 0, i);
    reveal_strlit("--boot-speed");
    reveal_strlit("--boot-speed=");
    reveal_strlit("=fast");
    reveal_strlit("=slow");
    reveal_strlit("=off");
    reveal_strlit("fast");
    reveal_strlit("slow");
    reveal_strlit("off");
    let arg = texts[i];
    let short = "--boot-speed"@;
    let long = "--boot-speed="@;
    assert(arg == short + rest);
    assert(short.is_prefix_of(arg));
    if rest.len() > 0 && rest[0] == '=' {
        assert(long.is_prefix_of(arg)) by {
            assert(arg.subrange(0, long.len() as int) =~= long);
        }
        assert(arg.skip(long.len() as int) =~= rest.skip(1));
        let name = rest.skip(1);
        assert(name == "fast"@ <==> rest == "=fast"@) by {
            assert("=fast"@.skip(1) =~= "fast"@);
            if name == "fast"@ {
                assert(rest =~= seq!['='] + name);
                assert("=fast"@ =~= seq!['='] + name);
            }
        }
        assert(name == "slow"@ <==> rest == "=slow"@) by {
            assert("=slow"@.skip(1) =~= "slow"@);
            if name == "slow"@ {
                assert(rest =~= seq!['='] + name);
                assert("=slow"@ =~= seq!['='] + name);
            }
        }
        assert(name == "off"@ <==> rest == "=off"@) by {
            assert("=off"@.skip(1) =~= "off"@);
            if name == "off"@ {
                assert(rest =~= seq!['='] + name);
                assert("=off"@ =~= seq!['='] + name);
            }
        }
        assert("fast"@ != "slow"@ && "fast"@ != "off"@ && "slow"@ != "off"@) by {
            assert("fast"@[0] != "slow"@[0] && "fast"@[0] != "off"@[0] && "slow"@[0] != "off"@[0]);
        }
    } else {
        assert(!long.is_prefix_of(arg)) by {
            if long.is_prefix_of(arg) {
                assert(arg.subrange(0, long.len() as int)[12] == '=');
                assert(arg[12] == rest[0]);
            }
        }
        assert("=fast"@[0] == '=' && "=slow"@[0] == '=' && "=off"@[0] == '=');
    }
}

proof fn lemma_speed_from(args: Seq<Seq<char>>, from: int, i: int)
    requires
        0 <= from <= i <= args.len(),
        forall|j: int| from <= j < i ==> !"--boot-speed"@.is_prefix_of(#[trigger] args[j]),
    ensures
        speed_from(args, from) == speed_from(args, i),
    decreases i - from,
{
    if from < i {
        lemma_speed_from(args, from + 1, i);
    }
}

/// Without an argument about it, the boot animation runs at the normal speed.
pub proof fn law_the_boot_speed_is_normal_by_default(args: &Vec<String>, speed: BootSpeed)
    requires
        call_ensures(boot_speed, (args,), speed),
        forall|j: int| 0 <= j < args@.len() ==> !"--boot-speed"@.is_prefix_of((#[trigger] args@[j])@),
    ensures
        speed is Normal,
{
    let texts = args@.map_values(|s: String| s@);
    lemma_speed_from(texts, 0, texts.len() as int);
}

/// Any arguments can be looked at.
pub proof fn law_any_arguments_can_be_looked_at(args: &Vec<String>)
    ensures
        call_requires(skip_menu, (args,)),
        call_requires(boot_speed, (args,)),
{
}

} // verus!
