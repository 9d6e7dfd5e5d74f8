//! The mapping store: which source goes to which destination, as the
//! configuration declares it, and the concrete pairs it expands to.

use vstd::prelude::*;
use vstd::utf8::{decode_utf8, valid_utf8};

use crate::encoding::text;
use crate::path::{expand_destination, expand_source, expands_to, joined};

verus! {

/// `serde_yaml::Error`, carried through untouched to the error of the run.
#[verifier::external_type_specification]
#[verifier::external_body]
pub struct ExYamlError(serde_yaml::Error);

/// Why no mapping could be read.
#[derive(Debug)]
pub enum MappingError {
    /// The text is not a flat YAML mapping of strings to strings.
    ParsingYaml(serde_yaml::Error),
}

/// The flat mapping of strings to strings that `serde_yaml` reads from
/// `text`, where it reads one.
pub uninterp spec fn yaml_mapping(text: Seq<char>) -> Option<Map<Seq<char>, Seq<char>>>;

/// A list of entries with its texts as sequences of characters.
pub open spec fn texts(entries: Seq<(String, String)>) -> Seq<(Seq<char>, Seq<char>)> {
    Seq::new(entries.len(), |i: int| (entries[i].0@, entries[i].1@))
}

/// No key occurs twice in `entries`.
pub open spec fn distinct_keys(entries: Seq<(Seq<char>, Seq<char>)>) -> bool {
    forall|i: int, j: int| 0 <= i < j < entries.len() ==> entries[i].0 != entries[j].0
}

/// The mapping that `entries` declare when read in order, a later entry
/// replacing an earlier one of the same key.
pub open spec fn as_map(entries: Seq<(Seq<char>, Seq<char>)>) -> Map<Seq<char>, Seq<char>>
    decreases entries.len(),
{
    if entries.len() == 0 {
        Map::empty()
    } else {
        as_map(entries.drop_last()).insert(entries.last().0, entries.last().1)
    }
}

/// The keys of [`as_map`] are the keys that occur in the list.
pub proof fn lemma_as_map_keys(entries: Seq<(Seq<char>, Seq<char>)>, key: Seq<char>)
    ensures
        as_map(entries).contains_key(key) <==> exists|i: int|
            0 <= i < entries.len() && #[trigger] entries[i].0 == key,
    decreases entries.len(),
{
    if entries.len() > 0 {
        let front = entries.drop_last();
        lemma_as_map_keys(front, key);
        if as_map(entries).contains_key(key) {
            if entries.last().0 == key {
                assert(entries[entries.len() - 1].0 == key);
            } else {
                let i: int = choose|i: int| 0 <= i < front.len() && #[trigger] front[i].0 == key;
                assert(entries[i].0 == key);
            }
        }
        if exists|i: int| 0 <= i < entries.len() && #[trigger] entries[i].0 == key {
            let i: int = choose|i: int| 0 <= i < entries.len() && #[trigger] entries[i].0 == key;
            if i < entries.len() - 1 {
                assert(front[i].0 == key);
            }
        }
    }
}

/// Where no key occurs twice, [`as_map`] takes each key to the value listed
/// with it.
pub proof fn lemma_as_map_value(entries: Seq<(Seq<char>, Seq<char>)>, i: int)
    requires
        distinct_keys(entries),
        0 <= i < entries.len(),
    ensures
        as_map(entries).contains_key(entries[i].0),
        as_map(entries)[entries[i].0] == entries[i].1,
    decreases entries.len(),
{
    let front = entries.drop_last();
    if i < entries.len() - 1 {
        assert(distinct_keys(front)) by {
            assert forall|a: int, b: int| 0 <= a < b < front.len() implies front[a].0
                != front[b].0 by {
                assert(entries[a].0 != entries[b].0);
            }
        }
        lemma_as_map_value(front, i);
        assert(front[i] == entries[i]);
        assert(entries[i].0 != entries[entries.len() - 1].0);
    }
}

/// Replacing the value of one entry of a list without repeated keys
/// replaces that key's value in [`as_map`].
proof fn lemma_as_map_update(entries: Seq<(Seq<char>, Seq<char>)>, j: int, value: Seq<char>)
    requires
        distinct_keys(entries),
        0 <= j < entries.len(),
    ensures
        as_map(entries.update(j, (entries[j].0, value))) == as_map(entries).insert(
            entries[j].0,
            value,
        ),
    decreases entries.len(),
{
    let key = entries[j].0;
    let updated = entries.update(j, (key, value));
    let front = entries.drop_last();
    if j == entries.len() - 1 {
        assert(updated.drop_last() =~= front);
        assert(as_map(updated) =~= as_map(entries).insert(key, value));
    } else {
        assert(distinct_keys(front)) by {
            assert forall|a: int, b: int| 0 <= a < b < front.len() implies front[a].0
                != front[b].0 by {
                assert(entries[a].0 != entries[b].0);
            }
        }
        lemma_as_map_update(front, j, value);
        assert(updated.drop_last() =~= front.update(j, (front[j].0, value)));
        assert(entries[j].0 != entries[entries.len() - 1].0);
        assert(as_map(updated) =~= as_map(entries).insert(key, value));
    }
}

/// One source inside the repository and the destination that is to link to it.
#[derive(Debug)]
pub struct Pair {
    pub source: String,
    pub destination: String,
}

/// A [`Pair`] with its paths as sequences of characters.
pub struct PairView {
    pub source: Seq<char>,
    pub destination: Seq<char>,
}

impl View for Pair {
    type V = PairView;

    open spec fn view(&self) -> PairView {
        PairView { source: self.source@, destination: self.destination@ }
    }
}

/// A list of pairs with its paths as sequences of characters.
pub open spec fn pair_views(pairs: Seq<Pair>) -> Seq<PairView> {
    Seq::new(pairs.len(), |i: int| pairs[i]@)
}

/// `pair` is what the entry expands to for the repository at `directory`
/// and the home directory `home`.
pub open spec fn expands(
    entry: (Seq<char>, Seq<char>),
    directory: Seq<char>,
    home: Seq<char>,
    pair: PairView,
) -> bool {
    pair.source == joined(directory, entry.0) && expands_to(entry.1, home, pair.destination)
}

/// The declared associations of sources to destinations. Its view is the
/// mapping itself; [`Mapping::entries`] lists it in the order in which the
/// store hands its entries out.
#[derive(Debug)]
pub struct Mapping {
    paths: Vec<(String, String)>,
}

impl View for Mapping {
    type V = Map<Seq<char>, Seq<char>>;

    open spec fn view(&self) -> Map<Seq<char>, Seq<char>> {
        as_map(self.entries())
    }
}

/// `serde_yaml::from_str`, read as a `HashMap` of strings and handed out as
/// a list. Trusted: it succeeds exactly where [`yaml_mapping`] is defined,
/// and then lists that mapping, each key once, in no promised order.
#[verifier::external_body]
fn parse(yaml: &str) -> (r: Result<Vec<(String, String)>, serde_yaml::Error>)
    ensures
        r is Ok <==> yaml_mapping(yaml@) is Some,
        r matches Ok(entries) ==> distinct_keys(texts(entries@)) && as_map(texts(entries@))
            == yaml_mapping(yaml@).unwrap(),
{
    let parsed: Result<std::collections::HashMap<String, String>, serde_yaml::Error> =
        serde_yaml::from_str(yaml);
    match parsed {
        Ok(map) => Ok(map.into_iter().collect()),
        Err(error) => Err(error),
    }
}

/// The place of `key` among the keys of `paths`, if it is one of them.
fn position(paths: &Vec<(String, String)>, key: &String) -> (r: Option<usize>)
    ensures
        match r {
            Some(j) => j < paths@.len() && paths@[j as int].0@ == key@,
            None => forall|j: int| 0 <= j < paths@.len() ==> paths@[j].0@ != key@,
        },
{
    let mut j: usize = 0;
    while j < paths.len()
        invariant
            j <= paths@.len(),
            forall|k: int| 0 <= k < j ==> paths@[k].0@ != key@,
        decreases paths@.len() - j,
    {
        if paths[j].0 == *key {
            return Some(j);
        }
        j += 1;
    }
    None
}

impl Mapping {
    /// The entries in the order in which [`Mapping::expand`] goes through
    /// them.
    pub closed spec fn entries(&self) -> Seq<(Seq<char>, Seq<char>)> {
        texts(self.paths@)
    }

    /// Every source is declared once.
    pub open spec fn wf(&self) -> bool {
        distinct_keys(self.entries())
    }

    /// The mapping that `entries` declare, a later entry replacing an
    /// earlier one with the same source.
    pub fn from_entries(entries: Vec<(String, String)>) -> (r: Mapping)
        ensures
            r.wf(),
            r@ == as_map(texts(entries@)),
    {
        let mut paths: Vec<(String, String)> = Vec::new();
        let mut i: usize = 0;
        while i < entries.len()
            invariant
                i <= entries@.len(),
                distinct_keys(texts(paths@)),
                as_map(texts(paths@)) == as_map(texts(entries@).take(i as int)),
            decreases entries@.len() - i,
        {
            let key = entries[i].0.clone();
            let value = entries[i].1.clone();
            let ghost before = texts(paths@);
            let ghost seen = texts(entries@).take(i as int);
            proof {
                let next = texts(entries@).take(i + 1);
                assert(next.drop_last() =~= seen);
                assert(next.last() == (key@, value@));
            }
            match position(&paths, &key) {
                Some(j) => {
                    paths.set(j, (key, value));
                    proof {
                        lemma_as_map_update(before, j as int, value@);
                        let after = texts(paths@);
                        assert(after =~= before.update(j as int, (before[j as int].0, value@)));
                        assert forall|a: int, b: int| 0 <= a < b < after.len() implies after[a].0
                            != after[b].0 by {
                            assert(after[a].0 == before[a].0 && after[b].0 == before[b].0);
                        }
                    }
                },
                None => {
                    paths.push((key, value));
                    proof {
                        let after = texts(paths@);
                        assert(after.drop_last() =~= before);
                        assert(after.last() == (key@, value@));
                        assert forall|a: int, b: int| 0 <= a < b < after.len() implies after[a].0
                            != after[b].0 by {
                            assert(after[a] == before[a]);
                            if b < before.len() {
                                assert(after[b] == before[b]);
                            }
                        }
                    }
                },
            }
            i += 1;
        }
        assert(texts(entries@).take(i as int) =~= texts(entries@));
        Mapping { paths }
    }

    /// The mapping that the YAML text declares, or the parser's error.
    pub fn from_yaml(yaml: &str) -> (r: Result<Mapping, MappingError>)
        ensures
            match yaml_mapping(yaml@) {
                Some(declared) => r matches Ok(mapping) && mapping.wf() && mapping@ == declared,
                None => r is Err,
            },
    {
        match parse(yaml) {
            Ok(entries) => Ok(Mapping::from_entries(entries)),
            Err(error) => Err(MappingError::ParsingYaml(error)),
        }
    }

    /// The mapping that a configuration file with these contents declares.
    pub fn from_yaml_file(contents: Vec<u8>) -> (r: Result<Mapping, MappingError>)
        requires
            valid_utf8(contents@),
        ensures
            match yaml_mapping(decode_utf8(contents@)) {
                Some(declared) => r matches Ok(mapping) && mapping.wf() && mapping@ == declared,
                None => r is Err,
            },
    {
        match text(contents) {
            Some(yaml) => Mapping::from_yaml(yaml.as_str()),
            None => vstd::pervasive::unreached(),
        }
    }

    /// How many entries the mapping has.
    pub fn len(&self) -> (r: usize)
        ensures
            r == self.entries().len(),
    {
        self.paths.len()
    }

    /// The destination declared for `source`, if there is one.
    pub fn get(&self, source: &str) -> (r: Option<&str>)
        requires
            self.wf(),
        ensures
            match r {
                Some(destination) => self@.contains_key(source@) && self@[source@]
                    == destination@,
                None => !self@.contains_key(source@),
            },
    {
        let key = source.to_owned();
        let found = position(&self.paths, &key);
        proof {
            lemma_as_map_keys(self.entries(), source@);
        }
        match found {
            Some(j) => {
                proof {
                    lemma_as_map_value(self.entries(), j as int);
                }
                Some(self.paths[j].1.as_str())
            },
            None => None,
        }
    }

    /// The concrete pairs of the mapping, one for each entry and in the
    /// order of [`Mapping::entries`]: the source joined onto `directory`,
    /// the destination with the home-directory shorthand written out.
    pub fn expand(&self, directory: &str, home: &str) -> (r: Vec<Pair>)
        ensures
            r@.len() == self.entries().len(),
            forall|i: int|
                0 <= i < r@.len() ==> expands(
                    #[trigger] self.entries()[i],
                    directory@,
                    home@,
                    r@[i]@,
                ),
    {
        let mut pairs: Vec<Pair> = Vec::new();
        let mut i: usize = 0;
        while i < self.paths.len()
            invariant
                i <= self.paths@.len(),
                pairs@.len() == i,
                forall|k: int|
                    0 <= k < i ==> expands(
                        #[trigger] self.entries()[k],
                        directory@,
                        home@,
                        pairs@[k]@,
                    ),
            decreases self.paths@.len() - i,
        {
            let source = expand_source(self.paths[i].0.as_str(), directory);
            let destination = expand_destination(self.paths[i].1.as_str(), home);
            pairs.push(Pair { source, destination });
            i += 1;
        }
        pairs
    }
}

} // verus!
