//! One launch target and its classification. A raw entry string is read by
//! ordered rules: an explicit shell marker first, then a path marker with
//! home expansion, then an absolute URL, and as the fallback an application
//! name. Exactly one rule applies to every string.

use vstd::prelude::*;

use crate::text::{has_prefix, head_is, is_prefix};

verus! {

/// The mathematical form of one launch target.
pub enum SpecEntry {
    App(Seq<char>),
    File(Seq<char>),
    Url(Seq<char>),
    Shell(Seq<char>),
}

/// One launch target: an application name, a file path with its home
/// reference already expanded, an absolute URL in the parser's normalized
/// form, or a shell command with its marker stripped.
///
/// A shell entry runs arbitrary commands through a shell interpreter; the
/// classification admits it only when the caller enables that capability.
#[derive(Debug, Clone)]
pub enum Entry {
    App(String),
    File(String),
    Url(String),
    Shell(String),
}

impl View for Entry {
    type V = SpecEntry;

    open spec fn view(&self) -> SpecEntry {
        match self {
            Entry::App(s) => SpecEntry::App(s@),
            Entry::File(s) => SpecEntry::File(s@),
            Entry::Url(s) => SpecEntry::Url(s@),
            Entry::Shell(s) => SpecEntry::Shell(s@),
        }
    }
}

impl DeepView for Entry {
    type V = SpecEntry;

    open spec fn deep_view(&self) -> SpecEntry {
        self@
    }
}

impl PartialEq for Entry {
    fn eq(&self, other: &Entry) -> (r: bool) {
        match (self, other) {
            (Entry::App(a), Entry::App(b)) => *a == *b,
            (Entry::File(a), Entry::File(b)) => *a == *b,
            (Entry::Url(a), Entry::Url(b)) => *a == *b,
            (Entry::Shell(a), Entry::Shell(b)) => *a == *b,
            _ => false,
        }
    }
}

impl vstd::std_specs::cmp::PartialEqSpecImpl for Entry {
    open spec fn obeys_eq_spec() -> bool {
        true
    }

    open spec fn eq_spec(&self, other: &Entry) -> bool {
        self@ == other@
    }
}

/// Whether the string begins with the shell marker.
pub open spec fn has_shell_marker(s: Seq<char>) -> bool {
    is_prefix("sh:"@, s)
}

/// Whether the string begins with a path marker: a home reference or an
/// absolute path.
pub open spec fn has_path_marker(s: Seq<char>) -> bool {
    s.len() > 0 && (s[0] == '/' || s[0] == '~')
}

/// Home expansion as shellexpand's `tilde` performs it on Unix: a leading
/// `~` that stands alone or is followed by `/` is replaced by the home
/// directory when one is known; every other string is unchanged.
pub open spec fn spec_tilde(s: Seq<char>, home: Option<Seq<char>>) -> Seq<char> {
    if s.len() > 0 && s[0] == '~' && (s.len() == 1 || s[1] == '/') {
        match home {
            Option::Some(h) => h + s.skip(1),
            Option::None => s,
        }
    } else {
        s
    }
}

/// What `url::Url::parse` makes of the string: the serialized form of the
/// parsed URL when the string parses as an absolute URL, nothing otherwise.
pub uninterp spec fn url_parse_result(s: Seq<char>) -> Option<Seq<char>>;

/// The ordered classification rules, first match winning: the shell marker
/// (only with the shell capability enabled), a path marker with home
/// expansion, an absolute URL, and otherwise an application name.
pub open spec fn spec_classify(s: Seq<char>, home: Option<Seq<char>>, shell_enabled: bool) -> SpecEntry {
    if shell_enabled && has_shell_marker(s) {
        SpecEntry::Shell(s.skip("sh:"@.len() as int))
    } else if has_path_marker(s) {
        SpecEntry::File(spec_tilde(s, home))
    } else {
        match url_parse_result(s) {
            Option::Some(u) => SpecEntry::Url(u),
            Option::None => SpecEntry::App(s),
        }
    }
}

/// Relies on shellexpand's `tilde` on Unix: a leading `~` that stands alone
/// or is followed by `/` is replaced by the home directory the platform
/// reports, when it reports one; every other string comes back unchanged.
#[verifier::external_body]
fn tilde_expand(s: &str) -> (r: String)
    ensures
        exists|home: Option<Seq<char>>| r@ == spec_tilde(s@, home),
{
    shellexpand::tilde(s).into_owned()
}

/// Relies on `url::Url::parse` and `url::Url::as_str`: parsing is a
/// function of the input string alone, and `as_str` returns the parsed
/// URL's serialized form.
#[verifier::external_body]
fn parse_url(s: &str) -> (r: Option<String>)
    ensures
        match (r, url_parse_result(s@)) {
            (Option::Some(u), Option::Some(n)) => u@ == n,
            (Option::None, Option::None) => true,
            _ => false,
        },
{
    match url::Url::parse(s) {
        Ok(u) => Some(u.as_str().to_string()),
        Err(_) => None,
    }
}

/// Classify one raw entry string. Total: every string yields exactly one
/// variant, and the home directory can only influence a string that begins
/// with a path marker.
pub fn classify(raw: &str, shell_enabled: bool) -> (e: Entry)
    ensures
        exists|home: Option<Seq<char>>| e@ == spec_classify(raw@, home, shell_enabled),
        !has_path_marker(raw@) ==> forall|home: Option<Seq<char>>|
            e@ == #[trigger] spec_classify(raw@, home, shell_enabled),
{
    let n: usize = raw.unicode_len();
    if shell_enabled && has_prefix(raw, "sh:") {
        proof {
            reveal_strlit("sh:");
        }
        let rest = raw.substring_char(3, n);
        let e = Entry::Shell(rest.to_owned());
        proof {
            assert(raw@.subrange(3, n as int) =~= raw@.skip("sh:"@.len() as int));
            assert(e@ == spec_classify(raw@, Option::<Seq<char>>::None, shell_enabled));
        }
        e
    } else if head_is(raw, '/') || head_is(raw, '~') {
        let expanded = tilde_expand(raw);
        let e = Entry::File(expanded);
        proof {
            let home = choose|home: Option<Seq<char>>| expanded@ == spec_tilde(raw@, home);
            assert(e@ == spec_classify(raw@, home, shell_enabled));
        }
        e
    } else {
        match parse_url(raw) {
            Some(u) => {
                let e = Entry::Url(u);
                proof {
                    assert(e@ == spec_classify(raw@, Option::<Seq<char>>::None, shell_enabled));
                }
                e
            },
            None => {
                let e = Entry::App(raw.to_owned());
                proof {
                    assert(e@ == spec_classify(raw@, Option::<Seq<char>>::None, shell_enabled));
                }
                e
            },
        }
    }
}

/// The caller-supplied home directory as the model sees it.
pub open spec fn home_view(home: Option<&str>) -> Option<Seq<char>> {
    match home {
        Option::Some(h) => Option::Some(h@),
        Option::None => Option::None,
    }
}

/// Home expansion with an explicit home directory, computed by verified
/// code and equal to `spec_tilde`.
pub fn expand_tilde(s: &str, home: Option<&str>) -> (r: String)
    ensures
        r@ == spec_tilde(s@, home_view(home)),
{
    let n: usize = s.unicode_len();
    if n > 0 && s.get_char(0) == '~' && (n == 1 || s.get_char(1) == '/') {
        match home {
            Some(h) => {
                let mut out = h.to_owned();
                out.append(s.substring_char(1, n));
                proof {
                    assert(s@.subrange(1, n as int) =~= s@.skip(1));
                }
                out
            },
            None => s.to_owned(),
        }
    } else {
        s.to_owned()
    }
}

/// Classify with the home directory supplied by the caller, so that home
/// expansion is itself computed by verified code and the result is pinned
/// down for every input.
pub fn classify_with_home(raw: &str, home: Option<&str>, shell_enabled: bool) -> (e: Entry)
    ensures
        e@ == spec_classify(raw@, home_view(home), shell_enabled),
{
    let n: usize = raw.unicode_len();
    if shell_enabled && has_prefix(raw, "sh:") {
        proof {
            reveal_strlit("sh:");
        }
        let rest = raw.substring_char(3, n);
        proof {
            assert(raw@.subrange(3, n as int) =~= raw@.skip("sh:"@.len() as int));
        }
        Entry::Shell(rest.to_owned())
    } else if head_is(raw, '/') || head_is(raw, '~') {
        Entry::File(expand_tilde(raw, home))
    } else {
        match parse_url(raw) {
            Some(u) => Entry::Url(u),
            None => Entry::App(raw.to_owned()),
        }
    }
}

/// The display form of an entry: the string a user would type for it, with
/// a file's home reference expanded and a shell command's marker stripped.
pub open spec fn spec_display(e: SpecEntry) -> Seq<char> {
    match e {
        SpecEntry::App(s) => s,
        SpecEntry::File(s) => s,
        SpecEntry::Url(s) => s,
        SpecEntry::Shell(s) => s,
    }
}

impl Entry {
    /// An owned copy with the same view.
    pub fn duplicate(&self) -> (r: Entry)
        ensures
            r@ == self@,
    {
        match self {
            Entry::App(s) => Entry::App(s.clone()),
            Entry::File(s) => Entry::File(s.clone()),
            Entry::Url(s) => Entry::Url(s.clone()),
            Entry::Shell(s) => Entry::Shell(s.clone()),
        }
    }

    /// The display form: application name, normalized path, or URL exactly
    /// as stored; a shell entry as its bare command text.
    pub fn display(&self) -> (r: String)
        ensures
            r@ == spec_display(self@),
    {
        match self {
            Entry::App(s) => s.clone(),
            Entry::File(s) => s.clone(),
            Entry::Url(s) => s.clone(),
            Entry::Shell(s) => s.clone(),
        }
    }
}

/// Law: a plain name — no shell marker, no path marker, no URL scheme that
/// the parser accepts — classifies as the application with that exact name.
pub proof fn lemma_plain_name_is_app(s: Seq<char>, home: Option<Seq<char>>, shell_enabled: bool)
    requires
        !has_shell_marker(s),
        !has_path_marker(s),
        url_parse_result(s) is None,
    ensures
        spec_classify(s, home, shell_enabled) == SpecEntry::App(s),
{
}

/// Law: a string that begins with a path marker classifies as a file with
/// its home reference expanded: with home `h`, `~` alone and `~/rest`
/// expand to `h` followed by the remainder, and an absolute path is kept
/// exactly as written.
pub proof fn lemma_path_marker_is_file(s: Seq<char>, home: Option<Seq<char>>, shell_enabled: bool)
    requires
        !(shell_enabled && has_shell_marker(s)),
        has_path_marker(s),
    ensures
        spec_classify(s, home, shell_enabled) == SpecEntry::File(spec_tilde(s, home)),
        s[0] == '~' && (s.len() == 1 || s[1] == '/') ==> (home matches Option::Some(h) ==>
            spec_tilde(s, home) == h + s.skip(1)),
        s[0] == '/' ==> spec_tilde(s, home) == s,
{
}

/// Law: with no shell or path marker in play, scheme presence is the sole
/// discriminator: the string classifies as a URL exactly when
/// `url::Url::parse` accepts it, and as an application name otherwise.
pub proof fn lemma_scheme_is_sole_discriminator(
    s: Seq<char>,
    home: Option<Seq<char>>,
    shell_enabled: bool,
)
    requires
        !(shell_enabled && has_shell_marker(s)),
        !has_path_marker(s),
    ensures
        spec_classify(s, home, shell_enabled) is Url <==> url_parse_result(s) is Some,
        url_parse_result(s) matches Option::Some(u) ==> spec_classify(s, home, shell_enabled)
            == SpecEntry::Url(u),
        url_parse_result(s) is None ==> spec_classify(s, home, shell_enabled) == SpecEntry::App(s),
{
}

/// Law: display round-trips classification. An application name displays
/// as the raw string itself, a URL as the parser's normalized form of it, a
/// file as the expanded path, and a shell entry as the raw string with the
/// marker stripped.
pub proof fn lemma_display_round_trip(s: Seq<char>, home: Option<Seq<char>>, shell_enabled: bool)
    ensures
        spec_classify(s, home, shell_enabled) is App ==> spec_display(
            spec_classify(s, home, shell_enabled),
        ) == s,
        spec_classify(s, home, shell_enabled) is Url ==> Option::Some(
            spec_display(spec_classify(s, home, shell_enabled)),
        ) == url_parse_result(s),
        spec_classify(s, home, shell_enabled) is File ==> spec_display(
            spec_classify(s, home, shell_enabled),
        ) == spec_tilde(s, home),
        spec_classify(s, home, shell_enabled) is Shell ==> spec_display(
            spec_classify(s, home, shell_enabled),
        ) == s.skip("sh:"@.len() as int),
{
}

} // verus!
