//! The configuration: its builder, the format collaborator it decodes and
//! encodes through, and the resolved state.
use vstd::prelude::*;

use crate::file::{File, FileFormat};
use crate::resolve::{
    all_unique, apply_overrides, insert_all_into, merge, merge_sources, overlay_env,
    override_existing, resolved, views,
};
use crate::table::{insert_all, insert_entry, keys_of, lookup, unique_keys, Entry, Table};
use crate::value::Value;

verus! {

/// A format collaborator: it decodes the text of a format into a table and
/// encodes a table in a format. A format it cannot handle is an error.
pub trait Codec {
    /// Decodes `content`, written in `format`, into a table.
    fn decode(&self, format: FileFormat, content: &String) -> Result<Table, String>;

    /// Encodes `table` in `format`.
    fn encode(&self, format: FileFormat, table: &Table) -> Result<String, String>;
}

/// `r` is a result that the collaborator gives for decoding `content`,
/// written in `format`.
pub open spec fn decodes_to<C: Codec>(
    codec: &C,
    format: FileFormat,
    content: String,
    r: Result<Table, String>,
) -> bool {
    call_ensures(C::decode, (codec, format, &content), r)
}

/// The collaborator decodes source `f` into some table.
pub open spec fn decodes_ok<C: Codec>(codec: &C, f: File) -> bool {
    exists|t: Table| #[trigger] decodes_to(codec, f.format, f.content, Ok::<Table, String>(t))
}

/// The characters of each string.
pub open spec fn names_of(v: Seq<String>) -> Seq<Seq<char>> {
    v.map_values(|s: String| s@)
}

/// The message for a source that could not be decoded.
pub open spec fn parse_failure(path: Seq<char>, reason: Seq<char>) -> Seq<char> {
    "Failed to parse file "@ + path + ": "@ + reason
}

fn parse_failure_message(path: &String, reason: String) -> (r: String)
    ensures
        r@ == parse_failure(path@, reason@),
{
    let mut s = String::from_str("Failed to parse file ");
    s.append(path.as_str());
    s.append(": ");
    s.append(reason.as_str());
    s
}

/// The message for an override document without content.
pub open spec fn empty_content() -> Seq<char> {
    "Empty content"@
}

/// Decodes an override document: empty content is refused before the
/// collaborator sees it.
fn load_map<C: Codec>(content: &String, format: FileFormat, codec: &C) -> (r: Result<
    Table,
    String,
>)
    ensures
        content@.len() == 0 ==> (r matches Err(e) && e@ == empty_content()),
        content@.len() > 0 ==> decodes_to(codec, format, *content, r),
{
    if content.unicode_len() == 0 {
        return Err(String::from_str("Empty content"));
    }
    codec.decode(format, content)
}

/// Collects the sources, the override document and the environment
/// snapshot of a configuration before it is built.
pub struct ConfigBuilder {
    pub files: Vec<File>,
    pub changes: Table,
    pub env: Option<Vec<(String, String)>>,
}

impl ConfigBuilder {
    /// Adds a source after those already added.
    pub fn add_file(self, file: File) -> (r: Self)
        ensures
            r.files@ == self.files@.push(file),
            r.changes == self.changes,
            r.env == self.env,
    {
        let mut b = self;
        b.files.push(file);
        b
    }

    /// Gives a snapshot of the environment, to apply when building.
    pub fn with_env(self, vars: Vec<(String, String)>) -> (r: Self)
        ensures
            r.files == self.files,
            r.changes == self.changes,
            r.env == Some(vars),
    {
        let mut b = self;
        b.env = Some(vars);
        b
    }

    /// Reads the override document from `file`. Empty content is refused;
    /// otherwise the document is what the collaborator decodes.
    pub fn load<C: Codec>(self, file: File, codec: &C) -> (r: Result<Self, String>)
        ensures
            file.content@.len() == 0 ==> (r matches Err(e) && e@ == empty_content()),
            file.content@.len() > 0 ==> decodes_to(
                codec,
                file.format,
                file.content,
                match r {
                    Ok(b) => Ok::<Table, String>(b.changes),
                    Err(e) => Err::<Table, String>(e),
                },
            ),
            r matches Ok(b) ==> b.files == self.files && b.env == self.env,
    {
        let changes = load_map(&file.content, file.format, codec)?;
        let mut b = self;
        b.changes = changes;
        Ok(b)
    }

    /// Decodes every source in order and resolves the configuration. The
    /// first source that cannot be decoded fails the whole build.
    pub fn build<C: Codec>(self, codec: &C) -> (r: Result<Config, String>)
        ensures
            self.files@.len() == 0 ==> r is Ok,
            r matches Ok(c) ==> exists|ts: Seq<Table>|
                #![trigger views(ts)]
                {
                    &&& ts.len() == self.files@.len()
                    &&& forall|i: int|
                        0 <= i < ts.len() ==> decodes_to(
                            codec,
                            self.files@[i].format,
                            self.files@[i].content,
                            Ok::<Table, String>(#[trigger] ts[i]),
                        )
                    &&& all_unique(views(ts))
                    &&& unique_keys(self.changes@)
                    &&& c.defaults_view() == merge_sources(views(ts))
                    &&& c.changes_view() == self.changes@
                    &&& c.values_view() == resolved(
                        merge_sources(views(ts)),
                        self.changes@,
                        match self.env {
                            Some(e) => Some(e@),
                            None => None,
                        },
                    )
                },
            r matches Err(e) ==> exists|i: int, reason: String|
                {
                    &&& 0 <= i < self.files@.len()
                    &&& forall|j: int| 0 <= j < i ==> decodes_ok(codec, #[trigger] self.files@[j])
                    &&& decodes_to(
                        codec,
                        self.files@[i].format,
                        self.files@[i].content,
                        Err::<Table, String>(reason),
                    )
                    &&& e@ == #[trigger] parse_failure(self.files@[i].path@, reason@)
                },
    {
        let mut decoded: Vec<Table> = Vec::new();
        let mut i: usize = 0;
        while i < self.files.len()
            invariant
                i <= self.files@.len(),
                decoded@.len() == i,
                forall|j: int|
                    0 <= j < i ==> decodes_to(
                        codec,
                        self.files@[j].format,
                        self.files@[j].content,
                        Ok::<Table, String>(#[trigger] decoded@[j]),
                    ),
            decreases self.files@.len() - i,
        {
            let file = &self.files[i];
            match file.parse(codec) {
                Ok(t) => decoded.push(t),
                Err(reason) => {
                    assert forall|j: int| 0 <= j < i implies decodes_ok(
                        codec,
                        #[trigger] self.files@[j],
                    ) by {
                        assert(decodes_to(
                            codec,
                            self.files@[j].format,
                            self.files@[j].content,
                            Ok::<Table, String>(decoded@[j]),
                        ));
                    }
                    let e = parse_failure_message(&file.path, reason);
                    return Err(e);
                },
            }
            i = i + 1;
        }
        Ok(Config::resolve(decoded, self.changes, self.env))
    }
}

/// The resolved configuration: the merged defaults, the changes that saving
/// writes out, and the values that reads see.
pub struct Config {
    defaults: Table,
    changes: Table,
    values: Table,
}

impl Config {
    /// The merged defaults of the sources.
    pub closed spec fn defaults_view(&self) -> Seq<Entry> {
        self.defaults@
    }

    /// The override document and the values set since.
    pub closed spec fn changes_view(&self) -> Seq<Entry> {
        self.changes@
    }

    /// The values that reads see.
    pub closed spec fn values_view(&self) -> Seq<Entry> {
        self.values@
    }

    /// A builder with no sources, an empty override document and no
    /// environment.
    pub fn builder() -> (r: ConfigBuilder)
        ensures
            r.files@.len() == 0,
            r.changes@.len() == 0,
            r.env is None,
    {
        ConfigBuilder { files: Vec::new(), changes: Table::new(), env: None }
    }

    /// Resolves decoded sources, an override document and an optional
    /// environment snapshot into a configuration.
    pub fn resolve(sources: Vec<Table>, changes: Table, env: Option<Vec<(String, String)>>) -> (r:
        Config)
        ensures
            all_unique(views(sources@)),
            unique_keys(changes@),
            r.defaults_view() == merge_sources(views(sources@)),
            r.changes_view() == changes@,
            r.values_view() == resolved(
                merge_sources(views(sources@)),
                changes@,
                match env {
                    Some(e) => Some(e@),
                    None => None,
                },
            ),
    {
        let defaults = merge(&sources);
        let mut values = defaults.clone();
        override_existing(&mut values, &changes);
        match env {
            Some(vars) => overlay_env(&mut values, &vars),
            None => {},
        }
        Config { defaults, changes, values }
    }

    /// The value that reads see under `key`.
    pub fn get(&self, key: &str) -> (r: Option<&Value>)
        ensures
            match lookup(self.values_view(), key@) {
                Some(v) => r == Some(&v),
                None => r is None,
            },
    {
        self.values.get(key)
    }

    /// Sets `key` to `value` in both the changes and the values, whether or
    /// not the defaults hold the key.
    pub fn set(&mut self, key: &str, value: Value)
        ensures
            final(self).defaults_view() == old(self).defaults_view(),
            final(self).changes_view() == insert_entry(old(self).changes_view(), key@, value),
            final(self).values_view() == insert_entry(old(self).values_view(), key@, value),
    {
        self.changes.insert(String::from_str(key), value.clone());
        self.values.insert(String::from_str(key), value);
    }

    /// The keys of the values, in order.
    pub fn list(&self) -> (r: Vec<String>)
        ensures
            names_of(r@) == keys_of(self.values_view()),
            forall|i: int, j: int| 0 <= i < j < r@.len() ==> r@[i]@ != r@[j]@,
    {
        let n = self.values.len();
        let mut out: Vec<String> = Vec::new();
        let mut i: usize = 0;
        while i < n
            invariant
                n == self.values@.len(),
                i <= n,
                out@.len() == i,
                names_of(out@) == keys_of(self.values@.take(i as int)),
            decreases n - i,
        {
            let (k, _) = self.values.entry_at(i);
            let ghost prev = out@;
            out.push(k.clone());
            assert forall|j: int| 0 <= j < i + 1 implies #[trigger] names_of(out@)[j] == keys_of(
                self.values@.take(i + 1),
            )[j] by {
                if j < i {
                    assert(out@[j] == prev[j]);
                    assert(names_of(prev)[j] == keys_of(self.values@.take(i as int))[j]);
                }
            }
            assert(names_of(out@) =~= keys_of(self.values@.take(i + 1)));
            i = i + 1;
        }
        assert(self.values@.take(n as int) =~= self.values@);
        assert forall|a: int, b: int| 0 <= a < b < out@.len() implies out@[a]@ != out@[b]@ by {
            assert(names_of(out@)[a] == self.values@[a].0);
            assert(names_of(out@)[b] == self.values@[b].0);
        }
        out
    }

    /// Adds the entries of a decoded document to the changes and
    /// recomputes the values from the defaults and all the changes.
    pub fn load_table(&mut self, parsed: Table)
        ensures
            final(self).defaults_view() == old(self).defaults_view(),
            final(self).changes_view() == insert_all(old(self).changes_view(), parsed@),
            final(self).values_view() == apply_overrides(
                old(self).defaults_view(),
                final(self).changes_view(),
            ),
    {
        insert_all_into(&mut self.changes, &parsed);
        let mut values = self.defaults.clone();
        override_existing(&mut values, &self.changes);
        self.values = values;
    }

    /// Reads a document from `file` and loads it as `load_table` does.
    /// Empty content is refused before the collaborator sees it; a document
    /// that cannot be read leaves the configuration unchanged.
    pub fn load<C: Codec>(&mut self, file: File, codec: &C) -> (r: Result<(), String>)
        ensures
            r is Err ==> *final(self) == *old(self),
            file.content@.len() == 0 ==> (r matches Err(e) && e@ == empty_content()),
            file.content@.len() > 0 && r is Err ==> exists|reason: String|
                {
                    &&& decodes_to(codec, file.format, file.content, Err::<Table, String>(reason))
                    &&& r->Err_0@ == #[trigger] parse_failure(file.path@, reason@)
                },
            r is Ok ==> exists|parsed: Table|
                {
                    &&& decodes_to(codec, file.format, file.content, Ok::<Table, String>(parsed))
                    &&& final(self).defaults_view() == old(self).defaults_view()
                    &&& final(self).changes_view() == #[trigger] insert_all(
                        old(self).changes_view(),
                        parsed@,
                    )
                    &&& final(self).values_view() == apply_overrides(
                        old(self).defaults_view(),
                        final(self).changes_view(),
                    )
                },
    {
        if file.content.unicode_len() == 0 {
            return Err(String::from_str("Empty content"));
        }
        match file.parse(codec) {
            Ok(parsed) => {
                self.load_table(parsed);
                Ok(())
            },
            Err(reason) => Err(parse_failure_message(&file.path, reason)),
        }
    }

    /// The table of changes.
    pub closed spec fn changes_table(&self) -> Table {
        self.changes
    }

    /// Encodes the changes, not the values, in `format`: the result is the
    /// collaborator's for the changes alone.
    pub fn save<C: Codec>(&self, format: FileFormat, codec: &C) -> (r: Result<String, String>)
        ensures
            self.changes_table()@ == self.changes_view(),
            call_ensures(C::encode, (codec, format, &self.changes_table()), r),
    {
        codec.encode(format, &self.changes)
    }
}

} // verus!
