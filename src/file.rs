//! Sources of configuration: a name, a format and the raw text.
use vstd::prelude::*;

use crate::config::{decodes_to, Codec};
use crate::table::Table;
use crate::text::str_eq;

verus! {

/// The serialisation format of a source.
#[derive(Debug, Clone, Copy, PartialEq, Eq, Structural)]
pub enum FileFormat {
    Ini,
    Json,
    Yaml,
    Toml,
    Ron,
}

/// The format that a file extension names.
pub open spec fn format_of_extension(ext: Seq<char>) -> Option<FileFormat> {
    if ext == "ini"@ {
        Some(FileFormat::Ini)
    } else if ext == "json"@ {
        Some(FileFormat::Json)
    } else if ext == "yaml"@ {
        Some(FileFormat::Yaml)
    } else if ext == "toml"@ {
        Some(FileFormat::Toml)
    } else if ext == "ron"@ {
        Some(FileFormat::Ron)
    } else {
        None
    }
}

/// The lowercase name of a format.
pub open spec fn format_name(f: FileFormat) -> Seq<char> {
    match f {
        FileFormat::Ini => "ini"@,
        FileFormat::Json => "json"@,
        FileFormat::Yaml => "yaml"@,
        FileFormat::Toml => "toml"@,
        FileFormat::Ron => "ron"@,
    }
}

impl FileFormat {
    /// The format that `extension` names, if any.
    pub fn from_extension(extension: &str) -> (r: Option<Self>)
        ensures
            r == format_of_extension(extension@),
    {
        if str_eq(extension, "ini") {
            Some(FileFormat::Ini)
        } else if str_eq(extension, "json") {
            Some(FileFormat::Json)
        } else if str_eq(extension, "yaml") {
            Some(FileFormat::Yaml)
        } else if str_eq(extension, "toml") {
            Some(FileFormat::Toml)
        } else if str_eq(extension, "ron") {
            Some(FileFormat::Ron)
        } else {
            None
        }
    }

    /// The lowercase name of the format.
    pub fn to_string(&self) -> (r: String)
        ensures
            r@ == format_name(*self),
    {
        match self {
            FileFormat::Ini => String::from_str("ini"),
            FileFormat::Json => String::from_str("json"),
            FileFormat::Yaml => String::from_str("yaml"),
            FileFormat::Toml => String::from_str("toml"),
            FileFormat::Ron => String::from_str("ron"),
        }
    }
}

/// The index of the last `.` of `s`, or -1.
pub open spec fn last_dot(s: Seq<char>) -> int
    decreases s.len(),
{
    if s.len() == 0 {
        -1
    } else if s.last() == '.' {
        s.len() - 1
    } else {
        last_dot(s.drop_last())
    }
}

/// The text after the last `.` of a path, if there is a dot and text after
/// it.
pub open spec fn extension_of(path: Seq<char>) -> Option<Seq<char>> {
    let i = last_dot(path);
    if i < 0 || i + 1 == path.len() {
        None
    } else {
        Some(path.subrange(i + 1, path.len() as int))
    }
}

/// How reading the format of a path ends: the format, or the message.
pub open spec fn path_format(path: Seq<char>) -> Result<FileFormat, Seq<char>> {
    match extension_of(path) {
        None => Err("Failed to get file extension from "@ + path),
        Some(ext) => match format_of_extension(ext) {
            Some(f) => Ok(f),
            None => Err("Unsupported file extension: "@ + ext),
        },
    }
}

/// One unit of input: a name used in messages, a format, and the text.
#[derive(Debug, Clone)]
pub struct File {
    pub path: String,
    pub format: FileFormat,
    pub content: String,
}

impl File {
    pub fn new(path: String, format: FileFormat, content: String) -> (r: Self)
        ensures
            r.path == path,
            r.format == format,
            r.content == content,
    {
        File { path, format, content }
    }

    /// The format that the extension of `path` names.
    pub fn format_from_path(path: &str) -> (r: Result<FileFormat, String>)
        ensures
            match path_format(path@) {
                Ok(f) => r == Ok::<FileFormat, String>(f),
                Err(m) => r matches Err(e) && e@ == m,
            },
    {
        let n = path.unicode_len();
        let mut i: usize = n;
        assert(path@.take(n as int) =~= path@);
        while i > 0 && path.get_char(i - 1) != '.'
            invariant
                n == path@.len(),
                i <= n,
                last_dot(path@) == last_dot(path@.take(i as int)),
            decreases i,
        {
            assert(path@.take(i as int).drop_last() =~= path@.take(i - 1));
            i = i - 1;
        }
        assert(path@.take(n as int) =~= path@);
        if i > 0 {
            assert(path@.take(i as int).last() == '.');
        } else {
            assert(path@.take(0) =~= Seq::<char>::empty());
        }
        if i == 0 || i == n {
            let mut m = String::from_str("Failed to get file extension from ");
            m.append(path);
            return Err(m);
        }
        let ext = path.substring_char(i, n);
        match FileFormat::from_extension(ext) {
            Some(f) => Ok(f),
            None => {
                let mut m = String::from_str("Unsupported file extension: ");
                m.append(ext);
                Err(m)
            },
        }
    }

    /// Decodes the content through the collaborator of its format.
    pub fn parse<C: Codec>(&self, codec: &C) -> (r: Result<Table, String>)
        ensures
            decodes_to(codec, self.format, self.content, r),
    {
        codec.decode(self.format, &self.content)
    }

    pub fn new_str(path: &str, format: FileFormat, content: &str) -> (r: Self)
        ensures
            r.path@ == path@,
            r.format == format,
            r.content@ == content@,
    {
        File { path: String::from_str(path), format, content: String::from_str(content) }
    }
}

} // verus!
