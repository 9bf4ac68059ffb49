//! Command-line arguments.
use vstd::prelude::*;

use crate::text::same_text;

verus! {

/// The words of a command line.
pub open spec fn words(args: Seq<String>) -> Seq<Seq<char>> {
    args.map_values(|a: String| a@)
}

/// The word after the first one that equals `flag`.
pub open spec fn flag_value(args: Seq<Seq<char>>, flag: Seq<char>) -> Option<Seq<char>> {
    match args.index_of_first(flag) {
        Some(i) => if i + 1 < args.len() {
            Some(args[i + 1])
        } else {
            None
        },
        None => None,
    }
}

/// The argument that follows `flag`.
pub fn get_arg(args: &[String], flag: &str) -> (r: Option<String>)
    ensures
        match flag_value(words(args@), flag@) {
            Some(value) => r matches Some(v) && v@ == value,
            None => r is None,
        },
{
    let mut i: usize = 0;
    while i < args.len()
        invariant
            i <= args@.len(),
            forall|j: int| 0 <= j < i ==> #[trigger] words(args@)[j] != flag@,
        decreases args@.len() - i,
    {
        if same_text(args[i].as_str(), flag) {
            proof {
                assert(words(args@)[i as int] == flag@);
                words(args@).index_of_first_ensures(flag@);
            }
            if i + 1 < args.len() {
                return Some(args[i + 1].clone());
            }
            return None;
        }
        i += 1;
    }
    proof {
        words(args@).index_of_first_ensures(flag@);
    }
    None
}

/// What the demonstration client does.
#[derive(Debug, Clone, Copy, PartialEq, Eq, Structural)]
pub enum DemoMode {
    Write,
    Read,
    Echo,
    Atomic,
    ErrRnr,
}

impl DemoMode {
    /// The mode's name on the command line.
    pub open spec fn spec_name(self) -> Seq<char> {
        match self {
            DemoMode::Write => "write"@,
            DemoMode::Read => "read"@,
            DemoMode::Echo => "echo"@,
            DemoMode::Atomic => "atomic"@,
            DemoMode::ErrRnr => "err_rnr"@,
        }
    }

    /// The mode with the given name.
    pub fn from_name(name: &str) -> (r: Option<DemoMode>)
        ensures
            match r {
                Some(mode) => name@ == mode.spec_name(),
                None => forall|mode: DemoMode| name@ != #[trigger] mode.spec_name(),
            },
    {
        if same_text(name, "write") {
            Some(DemoMode::Write)
        } else if same_text(name, "read") {
            Some(DemoMode::Read)
        } else if same_text(name, "echo") {
            Some(DemoMode::Echo)
        } else if same_text(name, "atomic") {
            Some(DemoMode::Atomic)
        } else if same_text(name, "err_rnr") {
            Some(DemoMode::ErrRnr)
        } else {
            None
        }
    }
}

/// A flag has a value exactly where its first occurrence is followed by a word;
/// that word is the value.
pub proof fn law_value_follows_first_flag(args: Seq<Seq<char>>, flag: Seq<char>, i: int)
    requires
        0 <= i < args.len(),
        args[i] == flag,
        forall|j: int| 0 <= j < i ==> args[j] != flag,
    ensures
        i + 1 < args.len() ==> flag_value(args, flag) == Some(args[i + 1]),
        i + 1 == args.len() ==> flag_value(args, flag) is None,
{
    args.index_of_first_ensures(flag);
}

/// A flag that does not occur has no value.
pub proof fn law_absent_flag_has_no_value(args: Seq<Seq<char>>, flag: Seq<char>)
    requires
        forall|j: int| 0 <= j < args.len() ==> args[j] != flag,
    ensures
        flag_value(args, flag) is None,
{
    args.index_of_first_ensures(flag);
}

/// Words are the arguments one by one.
pub proof fn law_words_are_the_arguments(args: Seq<String>, i: int)
    requires
        0 <= i < args.len(),
    ensures
        words(args).len() == args.len(),
        words(args)[i] == args[i]@,
{
}

/// `get_arg` gives the argument behind the first one that equals the flag, if
/// there is such a one.
pub proof fn law_get_arg(args: &[String], flag: &str, r: Option<String>, i: int)
    requires
        call_ensures(get_arg, (args, flag), r),
        0 <= i <= args@.len(),
        i < args@.len() ==> args@[i]@ == flag@,
        forall|j: int| 0 <= j < i ==> (#[trigger] args@[j])@ != flag@,
    ensures
        i + 1 < args@.len() ==> (r matches Some(v) && v@ == args@[i + 1]@),
        i + 1 >= args@.len() ==> r is None,
{
    let all = words(args@);
    assert(all.len() == args@.len());
    assert forall|j: int| 0 <= j < i implies all[j] != flag@ by {
        assert(all[j] == args@[j]@);
    }
    if i < args@.len() {
        law_value_follows_first_flag(all, flag@, i);
    } else {
        law_absent_flag_has_no_value(all, flag@);
    }
}

/// The modes have five different names.
pub proof fn law_mode_names(mode: DemoMode)
    ensures
        mode is Write ==> mode.spec_name() == "write"@,
        mode is Read ==> mode.spec_name() == "read"@,
        mode is Echo ==> mode.spec_name() == "echo"@,
        mode is Atomic ==> mode.spec_name() == "atomic"@,
        mode is ErrRnr ==> mode.spec_name() == "err_rnr"@,
{
}

} // verus!
