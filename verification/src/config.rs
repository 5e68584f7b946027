use vstd::prelude::*;
use vstd::utf8::{decode_utf8, valid_utf8};
use crate::table::{parse_toml_table, table_entries, toml_parse};
use crate::text::{decimal, string_from_utf8, usize_to_decimal, views};

verus! {

/// Why the configuration could not be set up.
pub enum ConfigError {
    TooFewArgs(usize),
    NoOutputFile(),
    ConfigReadError(String),
    FromUtf8Error(),
    TomlParseError(String),
    GithubTokenMissing(),
}

/// The files named on the command line, after the program's name: the
/// configuration files to read, the last of which is also the file to write.
pub open spec fn input_files(args: Seq<Seq<char>>) -> Seq<Seq<char>> {
    if args.len() == 0 {
        Seq::empty()
    } else {
        args.drop_first()
    }
}

/// The configuration files to read and the file to write, from the command
/// line: at least two files must be named.
pub fn config_files(args: &Vec<String>) -> (r: Result<(Vec<String>, String), ConfigError>)
    ensures
        input_files(views(args@)).len() < 2 ==> (r matches Err(ConfigError::TooFewArgs(n)) && n
            == input_files(views(args@)).len()),
        input_files(views(args@)).len() >= 2 ==> (r matches Ok((files, out)) && views(files@)
            == input_files(views(args@)) && out@ == views(args@).last()),
{
    let ghost a = views(args@);
    let n = args.len();
    let mut files: Vec<String> = Vec::new();
    let mut i: usize = 1;
    while i < n
        invariant
            n == args@.len(),
            a == views(args@),
            1 <= i,
            i <= n || n == 0,
            n > 0 ==> views(files@) =~= a.subrange(1, i as int),
            n == 0 ==> files@.len() == 0,
        decreases n - i,
    {
        files.push(args[i].clone());
        assert(a.subrange(1, i + 1) =~= a.subrange(1, i as int).push(a[i as int]));
        i = i + 1;
    }
    proof {
        if n > 0 {
            assert(a.subrange(1, n as int) =~= a.drop_first());
        }
    }
    if files.len() < 2 {
        return Err(ConfigError::TooFewArgs(files.len()));
    }
    let out = args[n - 1].clone();
    Ok((files, out))
}

/// The contents of the configuration files, each followed by a newline.
pub open spec fn joined_contents(contents: Seq<Seq<u8>>) -> Seq<u8>
    decreases contents.len(),
{
    if contents.len() == 0 {
        Seq::empty()
    } else {
        joined_contents(contents.drop_last()) + contents.last() + seq![10u8]
    }
}

pub open spec fn byte_views(contents: Seq<Vec<u8>>) -> Seq<Seq<u8>> {
    contents.map_values(|c: Vec<u8>| c@)
}

/// What the configuration is made of when the files hold `contents`: `None`
/// where the joined contents are not UTF-8, else what TOML makes of their
/// text (the entries, or the error's text).
pub open spec fn config_outcome(contents: Seq<Seq<u8>>) -> Option<
    Result<Map<Seq<char>, Option<Seq<char>>>, Seq<char>>,
> {
    let bytes = joined_contents(contents);
    if valid_utf8(bytes) {
        Some(toml_parse(decode_utf8(bytes)))
    } else {
        None
    }
}

/// The configuration table from the contents of the configuration files:
/// their contents, each followed by a newline, read as UTF-8 and parsed as
/// TOML.
pub fn config_from_contents(contents: &Vec<Vec<u8>>) -> (r: Result<toml::Table, ConfigError>)
    ensures
        config_outcome(byte_views(contents@)) is None ==> (r matches Err(e) && e is FromUtf8Error),
        config_outcome(byte_views(contents@)) matches Some(parsed) ==> match parsed {
            Err(msg) => r matches Err(ConfigError::TomlParseError(m)) && m@ == msg,
            Ok(entries) => r matches Ok(t) && table_entries(t) == entries,
        },
{
    let ghost cv = byte_views(contents@);
    let mut buf: Vec<u8> = Vec::new();
    let n = contents.len();
    let mut i: usize = 0;
    while i < n
        invariant
            n == contents@.len(),
            cv == byte_views(contents@),
            i <= n,
            buf@ =~= joined_contents(cv.take(i as int)),
        decreases n - i,
    {
        assert(cv.take(i + 1).drop_last() =~= cv.take(i as int));
        let mut c = contents[i].clone();
        assert(c@ =~= cv[i as int]);
        buf.append(&mut c);
        buf.push(10u8);
        i = i + 1;
    }
    assert(cv.take(n as int) =~= cv);
    let text = match string_from_utf8(buf) {
        Ok(text) => text,
        Err(_) => return Err(ConfigError::FromUtf8Error()),
    };
    match parse_toml_table(text.as_str()) {
        Ok(t) => Ok(t),
        Err(e) => Err(ConfigError::TomlParseError(e)),
    }
}

/// The message of a configuration error.
pub open spec fn config_error_text(e: ConfigError) -> Seq<char> {
    match e {
        ConfigError::TooFewArgs(n) => "at least two config files needed, but only "@ + decimal(
            n as nat,
        ) + " found."@,
        ConfigError::NoOutputFile() => "no output file."@,
        ConfigError::ConfigReadError(f) => "error reading config file: "@ + f@ + "."@,
        ConfigError::FromUtf8Error() => "config is not valid utf8."@,
        ConfigError::TomlParseError(m) => "config cant be parsed as toml: "@ + m@,
        ConfigError::GithubTokenMissing() => "GITHUB_TOKEN environment variable is missing or unset."@,
    }
}

impl ConfigError {
    /// The message of the error (its `Debug` and `Display`).
    pub fn fmt(&self) -> (r: String)
        ensures
            r@ == config_error_text(*self),
    {
        match self {
            ConfigError::TooFewArgs(n) => {
                let mut r = String::from_str("at least two config files needed, but only ");
                r.append(usize_to_decimal(*n).as_str());
                r.append(" found.");
                r
            },
            ConfigError::NoOutputFile() => String::from_str("no output file."),
            ConfigError::ConfigReadError(f) => {
                let mut r = String::from_str("error reading config file: ");
                r.append(f.as_str());
                r.append(".");
                r
            },
            ConfigError::FromUtf8Error() => String::from_str("config is not valid utf8."),
            ConfigError::TomlParseError(m) => {
                let mut r = String::from_str("config cant be parsed as toml: ");
                r.append(m.as_str());
                r
            },
            ConfigError::GithubTokenMissing() => String::from_str(
                "GITHUB_TOKEN environment variable is missing or unset.",
            ),
        }
    }
}

} // verus!
