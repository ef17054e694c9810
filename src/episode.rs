use vstd::prelude::*;
use vstd::string::StringExecFns;

use crate::error::ScanError;

verus! {

/// A catalog entry: an episode's title and its season and episode label.
#[derive(Debug, Clone)]
pub struct Episode {
    pub name: String,
    pub season_and_episode: String,
}

/// The edit distance that strsim's `levenshtein` computes between two strings.
pub uninterp spec fn levenshtein_of(a: Seq<char>, b: Seq<char>) -> nat;

/// Relies on strsim::levenshtein: the least number of single-character
/// insertions, deletions and substitutions that turn `a` into `b`, which is
/// zero exactly when the strings are equal.
#[verifier::external_body]
fn levenshtein(a: &str, b: &str) -> (r: usize)
    ensures
        r as nat == levenshtein_of(a@, b@),
        (r == 0) == (a@ == b@),
{
    strsim::levenshtein(a, b)
}

/// `k` is the first position of a least value of `d`.
pub open spec fn is_first_min(d: Seq<usize>, k: int) -> bool {
    &&& 0 <= k < d.len()
    &&& forall|j: int| 0 <= j < d.len() ==> d[k] <= d[j]
    &&& forall|j: int| 0 <= j < k ==> d[j] > d[k]
}

/// The distances from the text `text` to the names of the catalog, in order.
pub open spec fn distances(catalog: Seq<Episode>, text: Seq<char>) -> Seq<usize> {
    Seq::new(catalog.len(), |j: int| levenshtein_of(catalog[j].name@, text) as usize)
}

/// The position of the first least distance, or nothing for no distances.
pub fn closest_index(d: &Vec<usize>) -> (r: Option<usize>)
    ensures
        d@.len() == 0 <==> r.is_none(),
        r matches Some(k) ==> is_first_min(d@, k as int),
{
    if d.len() == 0 {
        return None;
    }
    let mut best: usize = 0;
    let mut i: usize = 1;
    while i < d.len()
        invariant
            1 <= i <= d@.len(),
            best < i,
            forall|j: int| 0 <= j < i ==> d@[best as int] <= d@[j],
            forall|j: int| 0 <= j < best ==> d@[j] > d@[best as int],
        decreases d.len() - i,
    {
        if d[i] < d[best] {
            best = i;
        }
        i = i + 1;
    }
    Some(best)
}

/// Copies an entry field by field.
fn copy_episode(e: &Episode) -> (r: Episode)
    ensures
        r.name == e.name,
        r.season_and_episode == e.season_and_episode,
{
    Episode { name: e.name.clone(), season_and_episode: e.season_and_episode.clone() }
}

/// `j` is the first position of the catalog whose name is exactly `text`.
pub open spec fn is_first_exact(catalog: Seq<Episode>, text: Seq<char>, j: int) -> bool {
    &&& 0 <= j < catalog.len()
    &&& catalog[j].name@ == text
    &&& forall|i: int| 0 <= i < j ==> catalog[i].name@ != text
}

/// `e` holds the same title and label as entry `k` of `catalog`.
pub open spec fn same_entry(e: Episode, catalog: Seq<Episode>, k: int) -> bool {
    e.name == catalog[k].name && e.season_and_episode == catalog[k].season_and_episode
}

/// The catalog entry whose name is nearest to `candidate_name` by edit
/// distance, the first such entry on a tie, or nothing for an empty catalog.
/// A name equal to the text is at distance zero, so the first such entry wins.
pub fn get_corrected_episode_name(candidate_name: &str, episodes: &Vec<Episode>) -> (r: Option<
    Episode,
>)
    ensures
        episodes@.len() == 0 <==> r.is_none(),
        r matches Some(e) ==> exists|k: int|
            #![trigger is_first_min(distances(episodes@, candidate_name@), k)]
            is_first_min(distances(episodes@, candidate_name@), k) && same_entry(e, episodes@, k),
        forall|j: int|
            0 <= j < episodes@.len() ==> (distances(episodes@, candidate_name@)[j] == 0 <==> (
            episodes@[j].name@ == candidate_name@)),
        forall|j: int|
            is_first_exact(episodes@, candidate_name@, j) ==> (r matches Some(e) && same_entry(
                e,
                episodes@,
                j,
            )),
{
    let mut d: Vec<usize> = Vec::new();
    let mut i: usize = 0;
    while i < episodes.len()
        invariant
            i <= episodes@.len(),
            d@ =~= distances(episodes@, candidate_name@).subrange(0, i as int),
            forall|j: int|
                0 <= j < i ==> (d@[j] == 0 <==> episodes@[j].name@ == candidate_name@),
        decreases episodes.len() - i,
    {
        let dist = levenshtein(episodes[i].name.as_str(), candidate_name);
        d.push(dist);
        i = i + 1;
    }
    assert(d@ =~= distances(episodes@, candidate_name@));
    match closest_index(&d) {
        Some(k) => {
            proof {
                assert forall|j: int| is_first_exact(episodes@, candidate_name@, j) implies k == j by {
                    assert(d@[j] == 0);
                    assert(d@[k as int] == 0);
                    if (k as int) < j {
                        assert(episodes@[k as int].name@ == candidate_name@);
                    }
                    if j < k {
                        assert(d@[j] > d@[k as int]);
                    }
                }
            }
            let e = copy_episode(&episodes[k]);
            assert(is_first_min(distances(episodes@, candidate_name@), k as int) && same_entry(
                e,
                episodes@,
                k as int,
            ));
            Some(e)
        },
        None => None,
    }
}

/// As `get_corrected_episode_name`, failing with `NotFound` on an empty catalog
/// and succeeding on every other.
pub fn closest_episode(candidate_name: &str, episodes: &Vec<Episode>) -> (r: Result<
    Episode,
    ScanError,
>)
    ensures
        episodes@.len() == 0 <==> r == Err::<Episode, ScanError>(ScanError::NotFound),
        episodes@.len() > 0 <==> r.is_ok(),
        r matches Ok(e) ==> exists|k: int|
            #![trigger is_first_min(distances(episodes@, candidate_name@), k)]
            is_first_min(distances(episodes@, candidate_name@), k) && same_entry(e, episodes@, k),
        forall|j: int|
            0 <= j < episodes@.len() ==> (distances(episodes@, candidate_name@)[j] == 0 <==> (
            episodes@[j].name@ == candidate_name@)),
        forall|j: int|
            is_first_exact(episodes@, candidate_name@, j) ==> (r matches Ok(e) && same_entry(
                e,
                episodes@,
                j,
            )),
{
    match get_corrected_episode_name(candidate_name, episodes) {
        Some(e) => Ok(e),
        None => Err(ScanError::NotFound),
    }
}

/// The file name that an episode's video is renamed to, keeping the file's
/// extension: `Bluey - <season and episode> - <name>.<extension>`.
pub fn new_file_name(e: &Episode, extension: &str) -> (r: String)
    ensures
        r@ == "Bluey - "@ + e.season_and_episode@ + " - "@ + e.name@ + "."@ + extension@,
{
    let mut r = String::from_str("Bluey - ");
    r.append(e.season_and_episode.as_str());
    r.append(" - ");
    r.append(e.name.as_str());
    r.append(".");
    r.append(extension);
    r
}

} // verus!
