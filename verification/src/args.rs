//! Command-line arguments: which are flags, which name files.

use vstd::hash_set::StringHashSet;
use vstd::prelude::*;
use vstd::string::StrSliceExecFns;

verus! {

/// `arg` is a flag: it begins with a hyphen.
pub open spec fn is_flag(arg: Seq<char>) -> bool {
    arg.len() > 0 && arg[0] == '-'
}

/// The arguments behind the first, which names the program.
pub open spec fn operands(args: Seq<Seq<char>>) -> Seq<Seq<char>> {
    if args.len() == 0 {
        args
    } else {
        args.skip(1)
    }
}

/// Those of `args` that are flags, in their order.
pub open spec fn flags_among(args: Seq<Seq<char>>) -> Seq<Seq<char>> {
    args.filter(|arg: Seq<char>| is_flag(arg))
}

/// Those of `args` that are no flags, in their order.
pub open spec fn paths_among(args: Seq<Seq<char>>) -> Seq<Seq<char>> {
    args.filter(|arg: Seq<char>| !is_flag(arg))
}

/// `c` parts the names in a path.
pub open spec fn is_separator(c: char) -> bool {
    c == '/' || c == '\\'
}

/// `name` is the last name in `path`: the end of `path` from behind its last
/// separator, or all of `path` where it holds none.
pub open spec fn is_file_name_of(name: Seq<char>, path: Seq<char>) -> bool {
    &&& name.len() <= path.len()
    &&& name == path.skip(path.len() - name.len())
    &&& forall|i: int| 0 <= i < name.len() ==> !is_separator(#[trigger] name[i])
    &&& name.len() < path.len() ==> is_separator(path[path.len() - name.len() - 1])
}

/// Whether `arg` is a flag.
fn starts_with_hyphen(arg: &str) -> (flag: bool)
    ensures
        flag == is_flag(arg@),
{
    !arg.is_empty() && arg.get_char(0) == '-'
}

/// Parts the arguments of a program, the first of which is its name, into
/// the paths and the flags among the others. Without any path there is
/// nothing to display, and nothing is returned.
pub fn separate_args(args: &Vec<String>) -> (parts: Option<(Vec<String>, Vec<String>)>)
    ensures
        parts is None <==> paths_among(operands(args.deep_view())).len() == 0,
        parts matches Some((file_paths, flags)) ==> {
            &&& file_paths.deep_view() == paths_among(operands(args.deep_view()))
            &&& flags.deep_view() == flags_among(operands(args.deep_view()))
        },
{
    let mut file_paths: Vec<String> = Vec::new();
    let mut flags: Vec<String> = Vec::new();
    let ghost rest = operands(args.deep_view());
    let count: usize = if args.len() == 0 {
        0
    } else {
        args.len() - 1
    };
    let mut k: usize = 0;
    while k < count
        invariant
            rest == operands(args.deep_view()),
            count == rest.len(),
            k <= count,
            file_paths.deep_view() == paths_among(rest.take(k as int)),
            flags.deep_view() == flags_among(rest.take(k as int)),
        decreases count - k,
    {
        let arg = &args[k + 1];
        proof {
            reveal(Seq::filter);
            assert(rest.take(k + 1).drop_last() =~= rest.take(k as int));
        }
        if starts_with_hyphen(arg.as_str()) {
            flags.push(arg.clone());
        } else {
            file_paths.push(arg.clone());
        }
        k = k + 1;
    }
    assert(rest.take(count as int) =~= rest);
    if file_paths.len() == 0 {
        None
    } else {
        Some((file_paths, flags))
    }
}

/// The set of the given flags.
pub fn flag_set(flags: &Vec<String>) -> (set: StringHashSet)
    ensures
        set@ == flags.deep_view().to_set(),
{
    let mut set = StringHashSet::new();
    let mut i: usize = 0;
    while i < flags.len()
        invariant
            i <= flags.len(),
            set@ == flags.deep_view().take(i as int).to_set(),
        decreases flags.len() - i,
    {
        let ghost before = flags.deep_view().take(i as int);
        let ghost after = flags.deep_view().take(i + 1);
        set.insert(flags[i].clone());
        proof {
            assert forall|token: Seq<char>| after.to_set().contains(token) == before.to_set().insert(
                flags[i as int]@,
            ).contains(token) by {
                if before.contains(token) {
                    let at = choose|at: int| 0 <= at < before.len() && before[at] == token;
                    assert(after[at] == token);
                }
                if token == flags[i as int]@ {
                    assert(after[i as int] == token);
                }
            }
        }
        i = i + 1;
    }
    assert(flags.deep_view().take(flags.len() as int) =~= flags.deep_view());
    set
}

/// The last name in `path`, by which a file is named in a message.
pub fn file_name(path: &str) -> (name: String)
    ensures
        is_file_name_of(name@, path@),
{
    let mut name = String::new();
    assert(name@ =~= path@.take(0).skip(0));
    for c in it: path.chars()
        invariant
            it.seq() == path@,
            is_file_name_of(name@, path@.take(it.index() as int)),
    {
        let ghost seen = path@.take(it.index() as int);
        let ghost next = path@.take(it.index() + 1);
        let ghost old_name = name@;
        if c == '/' || c == '\\' {
            name = String::new();
            assert(name@ =~= next.skip(next.len() - 0));
        } else {
            name.push(c);
            assert(name@ =~= next.skip(next.len() - name@.len()));
            assert(name@.len() < next.len() ==> next[next.len() - name@.len() - 1] == seen[seen.len()
                - old_name.len() - 1]);
        }
    }
    assert(path@.take(path@.len() as int) =~= path@);
    name
}

} // verus!
