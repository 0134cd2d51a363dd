//! The detail column of a Process Monitor event: a list such as
//! `Desired Access: Read, Disposition: Open, AllocationSize: 1,024`.

use vstd::prelude::*;

use crate::text::{same_text, trimmed};

verus! {

/// How one detail is found.
///
/// - `(?:^|,\s*)`: the start of the text, or the comma after the detail before
/// - `([^:]+):`: the key
/// - `\s*`: optional space
/// - `(\d{1,3}(?:,\d{3})*|[^,]+)`: the value, a number with its thousands
///   grouped by commas or text without a comma
///
/// The number is tried first. Of a value that starts with digits but is no such
/// number, only the digits that could start one are taken: `512` of `512 KB`, and
/// `102` of `1024`.
pub const DETAILS_PATTERN: &'static str = r"(?:^|,\s*)([^:]+):\s*(\d{1,3}(?:,\d{3})*|[^,]+)";

/// What the groups of one match hold, the whole match first.
pub type Groups = Seq<Option<Seq<char>>>;

/// The groups of every match of `DETAILS_PATTERN` in `text`, in the order in
/// which `regex::Regex::captures_iter` finds them.
pub uninterp spec fn detail_captures(text: Seq<char>) -> Seq<Groups>;

/// The groups as sequences of characters.
pub open spec fn group_views(groups: Seq<Option<String>>) -> Groups {
    groups.map_values(|g: Option<String>| match g {
        Some(text) => Some(text@),
        None => None,
    })
}

/// The matches as sequences of groups.
pub open spec fn capture_views(captures: Seq<Vec<Option<String>>>) -> Seq<Groups> {
    captures.map_values(|groups: Vec<Option<String>>| group_views(groups@))
}

/// Every match has a key and a value.
pub open spec fn have_key_and_value(captures: Seq<Groups>) -> bool {
    forall|i: int|
        0 <= i < captures.len() ==> (#[trigger] captures[i]).len() == 3 && captures[i][1] is Some
            && captures[i][2] is Some
}

/// `regex::Regex::captures_iter` of the pattern of the details, which
/// `regex::Regex::new` accepts: for each of `texts` the groups of every match.
/// Both groups of the pattern take part in every match, for none of them is
/// optional. The texts come together so that the pattern is compiled only once.
#[verifier::external_body]
fn captures(pattern: &str, texts: &Vec<&str>) -> (r: Vec<Vec<Vec<Option<String>>>>)
    requires
        pattern@ == DETAILS_PATTERN@,
    ensures
        r@.len() == texts@.len(),
        forall|i: int|
            0 <= i < texts@.len() ==> capture_views((#[trigger] r@[i])@) == detail_captures(
                texts@[i]@,
            ) && have_key_and_value(capture_views(r@[i]@)),
{
    let expression = regex::Regex::new(pattern).unwrap();
    let groups_of = |found: regex::Captures| -> Vec<Option<String>> {
        found.iter().map(|group| group.map(|m| m.as_str().to_owned())).collect()
    };
    texts.iter().map(|text| expression.captures_iter(text).map(groups_of).collect()).collect()
}

/// What a list of matches says, the last value of a key being the one that
/// counts.
pub open spec fn details_in(captures: Seq<Groups>) -> Map<Seq<char>, Seq<char>>
    decreases captures.len(),
{
    if captures.len() == 0 {
        Map::empty()
    } else {
        details_in(captures.drop_last()).insert(
            trimmed(captures.last()[1]->0),
            trimmed(captures.last()[2]->0),
        )
    }
}

/// What the detail column `text` says.
pub open spec fn details_of(text: Seq<char>) -> Map<Seq<char>, Seq<char>> {
    details_in(detail_captures(text))
}

/// The details of an event, one pair for each that was found. It is no map of the
/// standard library: the keys are texts, and of a map with such keys nothing can
/// be proved.
pub struct Details {
    pairs: Vec<(String, String)>,
}

/// What `pairs` say, the last value of a key being the one that counts.
pub open spec fn last_values(pairs: Seq<(String, String)>) -> Map<Seq<char>, Seq<char>>
    decreases pairs.len(),
{
    if pairs.len() == 0 {
        Map::empty()
    } else {
        last_values(pairs.drop_last()).insert(pairs.last().0@, pairs.last().1@)
    }
}

impl View for Details {
    type V = Map<Seq<char>, Seq<char>>;

    closed spec fn view(&self) -> Map<Seq<char>, Seq<char>> {
        last_values(self.pairs@)
    }
}

impl Details {
    /// The value of the detail `key`.
    pub fn get(&self, key: &str) -> (r: Option<&str>)
        ensures
            match r {
                Some(value) => self@.dom().contains(key@) && self@[key@] == value@,
                None => !self@.dom().contains(key@),
            },
    {
        let mut left: usize = self.pairs.len();
        assert(self.pairs@.take(left as int) =~= self.pairs@);
        while left > 0
            invariant
                left <= self.pairs@.len(),
                self@.dom().contains(key@) == last_values(
                    self.pairs@.take(left as int),
                ).dom().contains(key@),
                self@.dom().contains(key@) ==> self@[key@] == last_values(
                    self.pairs@.take(left as int),
                )[key@],
            decreases left,
        {
            proof {
                assert(self.pairs@.take(left as int).drop_last() =~= self.pairs@.take(left - 1));
            }
            left = left - 1;
            if same_text(self.pairs[left].0.as_str(), key) {
                return Some(self.pairs[left].1.as_str());
            }
        }
        None
    }
}

/// Takes key and value out of every match.
pub fn details_from_captures(captures: &Vec<Vec<Option<String>>>) -> (r: Details)
    requires
        have_key_and_value(capture_views(captures@)),
    ensures
        r@ == details_in(capture_views(captures@)),
{
    let ghost views = capture_views(captures@);
    let mut pairs: Vec<(String, String)> = Vec::new();
    for i in 0..captures.len()
        invariant
            views == capture_views(captures@),
            have_key_and_value(views),
            last_values(pairs@) == details_in(views.take(i as int)),
    {
        proof {
            assert(views.take(i + 1).drop_last() =~= views.take(i as int));
            assert(views[i as int] == group_views(captures@[i as int]@));
        }
        let groups: &Vec<Option<String>> = &captures[i];
        assert(groups@.len() == 3);
        assert(group_views(groups@)[1] is Some && group_views(groups@)[2] is Some);
        if let (Some(key), Some(value)) = (&groups[1], &groups[2]) {
            let ghost before = pairs@;
            pairs.push((key.as_str().trim().to_owned(), value.as_str().trim().to_owned()));
            assert(pairs@.drop_last() =~= before);
        }
    }
    assert(views.take(views.len() as int) =~= views);
    Details { pairs }
}

/// Splits every detail column of `columns` into its details.
pub fn parse_all_details(columns: &Vec<&str>) -> (r: Vec<Details>)
    ensures
        r@.len() == columns@.len(),
        forall|i: int| 0 <= i < columns@.len() ==> (#[trigger] r@[i])@ == details_of(columns@[i]@),
{
    let mut all: Vec<Details> = Vec::new();
    let found: Vec<Vec<Vec<Option<String>>>> = captures(DETAILS_PATTERN, columns);
    for i in 0..found.len()
        invariant
            found@.len() == columns@.len(),
            forall|k: int|
                0 <= k < columns@.len() ==> capture_views((#[trigger] found@[k])@)
                    == detail_captures(columns@[k]@) && have_key_and_value(
                    capture_views(found@[k]@),
                ),
            all@.len() == i,
            forall|k: int| 0 <= k < i ==> (#[trigger] all@[k])@ == details_of(columns@[k]@),
    {
        all.push(details_from_captures(&found[i]));
    }
    all
}

/// Splits the detail column `data` into its details.
pub fn parse_details(data: &str) -> (r: Details)
    ensures
        r@ == details_of(data@),
{
    let mut columns: Vec<&str> = Vec::new();
    columns.push(data);
    let mut all: Vec<Details> = parse_all_details(&columns);
    assert(columns@[0]@ == data@);
    all.swap_remove(0)
}

} // verus!
