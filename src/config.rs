//! Where the card dataset is looked for: two filenames, tried in order, each
//! in a fixed list of directories relative to the working directory.
use vstd::prelude::*;

verus! {

/// The dataset file that is preferred where it is present.
pub const PREFERRED: &'static str = "legal.json";

/// The dataset file that is used where no preferred one is found.
pub const FALLBACK: &'static str = "all.json";

/// The directory prefixes tried for each filename, in order.
pub open spec fn dir_prefixes() -> Seq<Seq<char>> {
    seq!["".view(), "../".view(), "../../".view(), "../notes/".view(), "../../notes/".view()]
}

/// Each directory prefix put before one filename, in the order of the prefixes.
pub open spec fn paths_of_name(name: Seq<char>, dirs: Seq<Seq<char>>) -> Seq<Seq<char>> {
    Seq::new(dirs.len(), |j: int| dirs[j] + name)
}

/// The candidates for several filenames: all those of the first name, then
/// all those of the second, and so on.
pub open spec fn paths_of_names(names: Seq<Seq<char>>, dirs: Seq<Seq<char>>) -> Seq<Seq<char>>
    decreases names.len(),
{
    if names.len() == 0 {
        Seq::empty()
    } else {
        paths_of_names(names.drop_last(), dirs) + paths_of_name(names.last(), dirs)
    }
}

/// The candidate locations of the card dataset, in priority order.
pub open spec fn universe_paths() -> Seq<Seq<char>> {
    paths_of_names(seq![PREFERRED@, FALLBACK@], dir_prefixes())
}

/// Builds the candidate paths for the given filenames and directory
/// prefixes: each prefix before the first name, then each before the second,
/// and so on.
pub fn candidate_paths(names: &Vec<&str>, dirs: &Vec<&str>) -> (r: Vec<String>)
    ensures
        r@.map_values(|s: String| s@) == paths_of_names(
            names@.map_values(|s: &str| s@),
            dirs@.map_values(|s: &str| s@),
        ),
{
    let ghost nv = names@.map_values(|s: &str| s@);
    let ghost dv = dirs@.map_values(|s: &str| s@);
    let mut r: Vec<String> = Vec::new();
    let mut i: usize = 0;
    while i < names.len()
        invariant
            i <= names@.len(),
            nv == names@.map_values(|s: &str| s@),
            dv == dirs@.map_values(|s: &str| s@),
            r@.map_values(|s: String| s@) == paths_of_names(nv.take(i as int), dv),
        decreases names.len() - i,
    {
        let ghost before = r@.map_values(|s: String| s@);
        let mut j: usize = 0;
        while j < dirs.len()
            invariant
                i < names@.len(),
                j <= dirs@.len(),
                nv == names@.map_values(|s: &str| s@),
                dv == dirs@.map_values(|s: &str| s@),
                r@.map_values(|s: String| s@) == before + paths_of_name(nv[i as int], dv).take(
                    j as int,
                ),
            decreases dirs.len() - j,
        {
            let path = String::from_str(dirs[j]).concat(names[i]);
            let ghost old_r = r@;
            r.push(path);
            proof {
                assert(path@ == dv[j as int] + nv[i as int]);
                assert(r@ == old_r.push(path));
                assert(r@.map_values(|s: String| s@) =~= old_r.map_values(|s: String| s@).push(
                    path@,
                ));
                assert(r@.map_values(|s: String| s@) =~= before + paths_of_name(
                    nv[i as int],
                    dv,
                ).take(j + 1));
            }
            j = j + 1;
        }
        proof {
            let t = nv.take(i + 1);
            assert(t.drop_last() =~= nv.take(i as int));
            assert(paths_of_name(nv[i as int], dv).take(j as int) =~= paths_of_name(t.last(), dv));
        }
        i = i + 1;
    }
    proof {
        assert(nv.take(i as int) =~= nv);
    }
    r
}

/// The candidate locations of the card dataset, in priority order: the
/// preferred filename in each directory, then the fallback one in each.
pub fn universe_candidates() -> (r: Vec<String>)
    ensures
        r@.map_values(|s: String| s@) == universe_paths(),
{
    let names = vec![PREFERRED, FALLBACK];
    let dirs = vec!["", "../", "../../", "../notes/", "../../notes/"];
    let r = candidate_paths(&names, &dirs);
    proof {
        assert(names@.map_values(|s: &str| s@) =~= seq![PREFERRED@, FALLBACK@]);
        assert(dirs@.map_values(|s: &str| s@) =~= dir_prefixes());
    }
    r
}

} // verus!
