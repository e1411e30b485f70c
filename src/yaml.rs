use vstd::prelude::*;

verus! {

/// The entries, in key order, of the top-level YAML mapping that `doc` holds, as
/// serde_yaml reads it: each key with its value where that is a string, and `None`
/// where the value is of another kind; `None` where `doc` is no mapping with string keys.
pub uninterp spec fn yaml_string_map_of(doc: Seq<char>) -> Option<Seq<(Seq<char>, Option<Seq<char>>)>>;

#[verifier::external_type_specification]
#[verifier::external_body]
pub struct ExYamlError(serde_yaml::Error);

pub open spec fn opt_text(o: Option<String>) -> Option<Seq<char>> {
    match o {
        Some(s) => Some(s@),
        None => None,
    }
}

pub open spec fn entries_view(v: Seq<(String, Option<String>)>) -> Seq<(Seq<char>, Option<Seq<char>>)> {
    v.map_values(|e: (String, Option<String>)| (e.0@, opt_text(e.1)))
}

/// Relies on `serde_yaml::from_str` into a `BTreeMap<String, serde_yaml::Value>`: the
/// entries of the document's top-level mapping, in key order, each string value kept.
#[verifier::external_body]
fn read_string_map(doc: &str) -> (r: Result<Vec<(String, Option<String>)>, serde_yaml::Error>)
    ensures
        r is Ok <==> yaml_string_map_of(doc@) is Some,
        r matches Ok(v) ==> yaml_string_map_of(doc@) == Some(entries_view(v@)),
{
    serde_yaml::from_str::<std::collections::BTreeMap<String, serde_yaml::Value>>(doc).map(
        |m|
            m.into_iter().map(
                |(k, v)|
                    match v {
                        serde_yaml::Value::String(s) => (k, Some(s)),
                        _ => (k, None),
                    },
            ).collect(),
    )
}

/// The value of the first entry whose key is `key`.
pub open spec fn lookup(entries: Seq<(Seq<char>, Option<Seq<char>>)>, key: Seq<char>) -> Option<
    Option<Seq<char>>,
>
    decreases entries.len(),
{
    if entries.len() == 0 {
        None
    } else if entries[0].0 == key {
        Some(entries[0].1)
    } else {
        lookup(entries.drop_first(), key)
    }
}

/// A YAML document read as a mapping with string keys.
pub struct YamlFields {
    pub entries: Vec<(String, Option<String>)>,
}

impl YamlFields {
    /// Reads `doc`; `None` where it is no mapping with string keys.
    pub fn read(doc: &str) -> (r: Option<YamlFields>)
        ensures
            r is None <==> yaml_string_map_of(doc@) is None,
            r matches Some(f) ==> yaml_string_map_of(doc@) == Some(entries_view(f.entries@)),
    {
        match read_string_map(doc) {
            Ok(v) => Some(YamlFields { entries: v }),
            Err(_) => None,
        }
    }

    /// The value of `key`: `None` where the document lacks it, `Some(None)` where its
    /// value is no string.
    pub fn get(&self, key: &str) -> (r: Option<Option<String>>)
        ensures
            r matches Some(v) ==> lookup(entries_view(self.entries@), key@) == Some(opt_text(v)),
            r is None ==> lookup(entries_view(self.entries@), key@) is None,
    {
        let k = key.to_owned();
        let mut i: usize = 0;
        assert(entries_view(self.entries@).subrange(0, self.entries@.len() as int) =~= entries_view(
            self.entries@,
        ));
        while i < self.entries.len()
            invariant
                i <= self.entries@.len(),
                k@ == key@,
                lookup(entries_view(self.entries@), key@) == lookup(
                    entries_view(self.entries@).subrange(i as int, self.entries@.len() as int),
                    key@,
                ),
            decreases self.entries@.len() - i,
        {
            let ghost rest = entries_view(self.entries@).subrange(i as int, self.entries@.len() as int);
            if self.entries[i].0 == k {
                let v = match &self.entries[i].1 {
                    Some(s) => Some(s.clone()),
                    None => None,
                };
                return Some(v);
            }
            proof {
                assert(rest.drop_first() =~= entries_view(self.entries@).subrange(
                    i + 1,
                    self.entries@.len() as int,
                ));
            }
            i = i + 1;
        }
        None
    }
}

} // verus!
