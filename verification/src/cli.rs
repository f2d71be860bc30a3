//! The command-line validator: its arguments, and how it localizes log messages.
use vstd::prelude::*;
use vstd::string::*;

use std::collections::HashMap;

use strfmt::Format;

use crate::lookup::{first_match, lemma_first_match_absent, lemma_first_match_found, lemma_first_match_properties};
use crate::avatar::transformer::dependencies::str_equal;
use crate::decl_v2::arguments::DeclarationFormat;
use crate::text::concat2;

verus! {

/// The validator's command line.
#[derive(Debug)]
pub struct Arguments {
    pub subcommand: Subcommand,
}

#[derive(Debug)]
pub enum Subcommand {
    /// Loads declaration file and expands into internal format.
    Load(FileOption),
    /// Loads declaration file and compiles with validation.
    Compile(FileOption),
}

#[derive(Debug)]
pub struct FileOption {
    /// Filename.
    pub file: String,
    /// Shows the result struct in indented form.
    pub indented: bool,
    /// Library directories.
    pub library_paths: Vec<String>,
    /// Defined symbols.
    pub symbols: Vec<String>,
    /// Localization pairs.
    pub localizations: Vec<(String, String)>,
}

pub open spec fn is_colon(c: char) -> bool {
    c == ':'
}

pub open spec fn colon_pred() -> spec_fn(char) -> bool {
    |c: char| is_colon(c)
}

/// A localization pair `key:value`, split at its first colon.
pub open spec fn localization_pair(s: Seq<char>) -> Result<(Seq<char>, Seq<char>), Seq<char>> {
    match first_match(s, colon_pred()) {
        Some(i) => Ok((s.subrange(0, i), s.subrange(i + 1, s.len() as int))),
        None => Err("invalid localization pair definition: "@ + s),
    }
}

/// A key without a colon, joined to any value by a colon, reads back as that key and value;
/// text without a colon is never a pair.
pub proof fn lemma_localization_pair_round_trip(key: Seq<char>, value: Seq<char>)
    requires
        !key.contains(':'),
    ensures
        localization_pair(key + seq![':'] + value) == Ok::<(Seq<char>, Seq<char>), Seq<char>>((key, value)),
        localization_pair(key) is Err,
{
    let s = key + seq![':'] + value;
    let n = key.len() as int;
    assert forall|j: int| 0 <= j < n implies !colon_pred()(#[trigger] s[j]) by {
        assert(s[j] == key[j]);
    }
    assert(colon_pred()(s[n]));
    lemma_first_match_found(s, colon_pred(), n);
    assert(s.subrange(0, n) =~= key);
    assert(s.subrange(n + 1, s.len() as int) =~= value);
    assert forall|j: int| 0 <= j < key.len() implies !colon_pred()(#[trigger] key[j]) by {
        assert(key[j] != ':');
    }
    lemma_first_match_absent(key, colon_pred());
}

/// Reads a localization pair `key:value`; without a colon it is an error.
pub fn parse_localization_pair(s: &str) -> (r: Result<(String, String), String>)
    ensures
        match localization_pair(s@) {
            Ok((k, v)) => r matches Ok((rk, rv)) && rk@ == k && rv@ == v,
            Err(e) => r matches Err(re) && re@ == e,
        },
{
    let ghost pred = colon_pred();
    proof {
        lemma_first_match_properties(s@, pred);
    }
    let len = s.unicode_len();
    let mut i: usize = 0;
    while i < len
        invariant
            i <= len,
            len == s@.len(),
            pred == colon_pred(),
            forall|j: int| 0 <= j < i ==> !pred(#[trigger] s@[j]),
        decreases len - i,
    {
        if s.get_char(i) == ':' {
            proof {
                lemma_first_match_found(s@, pred, i as int);
            }
            let key = s.substring_char(0, i).to_owned();
            let value = s.substring_char(i + 1, len).to_owned();
            return Ok((key, value));
        }
        i = i + 1;
    }
    proof {
        lemma_first_match_absent(s@, pred);
    }
    Err(concat2("invalid localization pair definition: ", s))
}

pub open spec fn is_dot(c: char) -> bool {
    c == '.'
}

/// The extension of a file name, as `Path::extension` reads it: what follows the last dot,
/// unless there is no dot, or the only dot begins the name.
pub open spec fn extension_of(name: Seq<char>) -> Option<Seq<char>> {
    if exists|i: int| 0 < i < name.len() && is_dot(#[trigger] name[i]) {
        let i = choose|i: int|
            0 < i < name.len() && is_dot(name[i]) && forall|j: int| i < j < name.len() ==> !is_dot(#[trigger] name[j]);
        Some(name.subrange(i + 1, name.len() as int))
    } else {
        None
    }
}

/// The extension of a file name (see `extension_of`).
pub fn file_extension(name: &str) -> (r: Option<String>)
    ensures
        match extension_of(name@) {
            Some(e) => r matches Some(s) && s@ == e,
            None => r is None,
        },
{
    let len = name.unicode_len();
    let mut i: usize = len;
    while i > 1
        invariant
            i <= len,
            len == name@.len(),
            forall|j: int| i <= j < len ==> !is_dot(#[trigger] name@[j]),
        decreases i,
    {
        if name.get_char(i - 1) == '.' {
            let k = i - 1;
            proof {
                let w = choose|w: int|
                    0 < w < name@.len() && is_dot(name@[w]) && forall|j: int| w < j < name@.len() ==> !is_dot(#[trigger] name@[j]);
                assert(0 < k < name@.len() && is_dot(name@[k as int]) && forall|j: int|
                    k < j < name@.len() ==> !is_dot(#[trigger] name@[j]));
                if w < k {
                    assert(!is_dot(name@[k as int]));
                }
                if w > k {
                    assert(!is_dot(name@[w]));
                }
            }
            return Some(name.substring_char(k + 1, len).to_owned());
        }
        i = i - 1;
    }
    proof {
        assert forall|j: int| 0 < j < name@.len() implies !is_dot(#[trigger] name@[j]) by {}
    }
    None
}

/// The declaration format an extension names: "declisp", "lisp" or "scm" for S-expressions,
/// "declua" or "lua" for Lua, each with the library paths.
pub open spec fn format_for(ext: Option<Seq<char>>) -> Result<bool, Seq<char>> {
    match ext {
        None => Err("file format cannot be determined"@),
        Some(e) => if e == "declisp"@ || e == "lisp"@ || e == "scm"@ {
            Ok(true)
        } else if e == "declua"@ || e == "lua"@ {
            Ok(false)
        } else {
            Err("unknown file type: "@ + e)
        },
    }
}

/// Chooses the declaration format of a file by the extension of its name (see `format_for`);
/// `Sexpr` and `Lua` carry the library paths.
pub fn declaration_format(file_name: &str, library_paths: Vec<String>) -> (r: Result<DeclarationFormat, String>)
    ensures
        match format_for(extension_of(file_name@)) {
            Ok(true) => r matches Ok(DeclarationFormat::Sexpr(ps)) && ps == library_paths,
            Ok(false) => r matches Ok(DeclarationFormat::Lua(ps)) && ps == library_paths,
            Err(e) => r matches Err(re) && re@ == e,
        },
{
    proof {
        reveal_strlit("declisp");
        reveal_strlit("lisp");
        reveal_strlit("scm");
        reveal_strlit("declua");
        reveal_strlit("lua");
    }
    let ext = match file_extension(file_name) {
        Some(e) => e,
        None => {
            return Err(String::from_str("file format cannot be determined"));
        },
    };
    let e = ext.as_str();
    if str_equal(e, "declisp") || str_equal(e, "lisp") || str_equal(e, "scm") {
        Ok(DeclarationFormat::Sexpr(library_paths))
    } else if str_equal(e, "declua") || str_equal(e, "lua") {
        Ok(DeclarationFormat::Lua(library_paths))
    } else {
        Err(concat2("unknown file type: ", e))
    }
}

/// What `strfmt` makes of a template whose fields `{0}`, `{1}`, ... name the arguments
/// by position: the text, or nothing where the template cannot be filled.
pub uninterp spec fn formatted(template: Seq<char>, args: Seq<Seq<char>>) -> Option<Seq<char>>;

pub open spec fn strings_view(v: Seq<String>) -> Seq<Seq<char>> {
    v.map_values(|s: String| s@)
}

/// Calls `strfmt::Format::format` on `template`, each argument named by its position;
/// what it returns is named `formatted`, and a formatting error is `None`.
#[verifier::external_body]
fn format_template(template: &str, args: &Vec<String>) -> (r: Option<String>)
    ensures
        match formatted(template@, strings_view(args@)) {
            Some(t) => r matches Some(s) && s@ == t,
            None => r is None,
        },
{
    let vars: HashMap<String, String> = args.iter().enumerate().map(|(i, a)| (i.to_string(), a.clone())).collect();
    template.format(&vars).ok()
}

/// Log messages by log kind.
#[derive(Debug)]
pub struct I18nLog {
    pub localization: Vec<(String, String)>,
}

pub open spec fn key_pred(kind: Seq<char>) -> spec_fn((String, String)) -> bool {
    |e: (String, String)| e.0@ == kind
}

/// The message of a log: its kind's template filled with its arguments, or the kind itself
/// where no template is known; nothing where the template cannot be filled.
pub open spec fn localized(entries: Seq<(String, String)>, kind: Seq<char>, args: Seq<Seq<char>>) -> Option<
    Seq<char>,
> {
    match first_match(entries, key_pred(kind)) {
        None => Some(kind),
        Some(i) => formatted(entries[i].1@, args),
    }
}

impl I18nLog {
    fn find_template(&self, kind: &str) -> (r: Option<&String>)
        ensures
            match first_match(self.localization@, key_pred(kind@)) {
                Some(i) => r matches Some(t) && *t == self.localization@[i].1,
                None => r is None,
            },
    {
        let ghost pred = key_pred(kind@);
        proof {
            lemma_first_match_properties(self.localization@, pred);
        }
        let mut i: usize = 0;
        while i < self.localization.len()
            invariant
                i <= self.localization@.len(),
                pred == key_pred(kind@),
                forall|j: int| 0 <= j < i ==> !pred(#[trigger] self.localization@[j]),
            decreases self.localization@.len() - i,
        {
            if crate::avatar::transformer::dependencies::str_equal(self.localization[i].0.as_str(), kind) {
                proof {
                    lemma_first_match_found(self.localization@, pred, i as int);
                }
                return Some(&self.localization[i].1);
            }
            i = i + 1;
        }
        proof {
            lemma_first_match_absent(self.localization@, pred);
        }
        None
    }

    /// The message of a log (see `localized`); its template must be fillable.
    pub fn localize(&self, kind: String, args: Vec<String>) -> (r: String)
        requires
            localized(self.localization@, kind@, strings_view(args@)) is Some,
        ensures
            r@ == localized(self.localization@, kind@, strings_view(args@))->0,
    {
        let base = match self.find_template(kind.as_str()) {
            Some(b) => b,
            None => {
                return kind;
            },
        };
        match format_template(base.as_str(), &args) {
            Some(message) => message,
            None => {
                proof {
                    assert(false);
                }
                kind
            },
        }
    }

    /// The message of a log, or `None` where its template cannot be filled.
    pub fn try_localize(&self, kind: String, args: Vec<String>) -> (r: Option<String>)
        ensures
            match localized(self.localization@, kind@, strings_view(args@)) {
                Some(m) => r matches Some(s) && s@ == m,
                None => r is None,
            },
    {
        let fillable = match self.find_template(kind.as_str()) {
            Some(base) => format_template(base.as_str(), &args).is_some(),
            None => true,
        };
        if fillable {
            Some(self.localize(kind, args))
        } else {
            None
        }
    }
}

} // verus!
