//! The text shown for the focused window: its title, escaped for markup,
//! rewritten by a list of patterns that put an icon in place of an
//! application's name.

use vstd::prelude::*;

use crate::text::chars_eq_str;

verus! {

/// What `c` becomes in markup text: `&`, `<` and `>` become entities.
pub open spec fn escape_char(c: char) -> Seq<char> {
    if c == '&' {
        seq!['&', 'a', 'm', 'p', ';']
    } else if c == '<' {
        seq!['&', 'l', 't', ';']
    } else if c == '>' {
        seq!['&', 'g', 't', ';']
    } else {
        seq![c]
    }
}

/// `s` with each `&`, `<` and `>` replaced by its entity.
pub open spec fn html_escaped(s: Seq<char>) -> Seq<char>
    decreases s.len(),
{
    if s.len() == 0 {
        seq![]
    } else {
        html_escaped(s.drop_last()) + escape_char(s.last())
    }
}

/// `text` escaped for markup.
///
/// Trusted: `html_escape::encode_text` replaces every `&`, `<` and `>` of its
/// argument by `&amp;`, `&lt;` and `&gt;` and leaves every other character as
/// it is (its source escapes exactly these three bytes); that is what this
/// contract claims.
#[verifier::external_body]
pub(crate) fn html_encode_text(text: &str) -> (r: String)
    ensures
        r@ == html_escaped(text@),
{
    html_escape::encode_text(text).into_owned()
}

#[verifier::external_type_specification]
#[verifier::external_body]
pub struct ExRegex(regex::Regex);

/// Whether `pattern` is a regular expression that the `regex` crate accepts.
pub uninterp spec fn regex_accepts(pattern: Seq<char>) -> bool;

/// What replacing the leftmost match of `pattern` in `text` by `replacement`
/// (with `$n` standing for the `n`th group) gives.
pub uninterp spec fn regex_replace_first(
    pattern: Seq<char>,
    replacement: Seq<char>,
    text: Seq<char>,
) -> Seq<char>;

/// A rewrite of window titles: the leftmost match of a pattern is replaced.
pub struct TitleRewrite {
    pattern: String,
    replacement: String,
    regex: regex::Regex,
}

impl TitleRewrite {
    /// The pattern whose leftmost match is replaced.
    pub closed spec fn pattern(&self) -> Seq<char> {
        self.pattern@
    }

    /// What replaces the match.
    pub closed spec fn replacement(&self) -> Seq<char> {
        self.replacement@
    }

    /// The rewrite of `pattern` by `replacement`, if `pattern` is a regular
    /// expression.
    ///
    /// Trusted: `regex::Regex::new` compiles `pattern`, failing where the
    /// crate rejects it; the name `regex_accepts` stands for that. The
    /// compiled regex is kept with the texts it was made from, which is what
    /// [`Self::rewrite`] relies on.
    #[verifier::external_body]
    pub(crate) fn new(pattern: &str, replacement: &str) -> (r: Option<Self>)
        ensures
            r is Some <==> regex_accepts(pattern@),
            r matches Some(x) ==> x.pattern() == pattern@ && x.replacement() == replacement@,
    {
        regex::Regex::new(pattern).ok().map(
            |regex| TitleRewrite { pattern: pattern.to_owned(), replacement: replacement.to_owned(), regex },
        )
    }

    /// `text` with the leftmost match of the pattern replaced.
    ///
    /// Trusted: `regex::Regex::replace` replaces the leftmost match of the
    /// regex compiled from `self.pattern()` in `text` by the replacement,
    /// expanding `$n`; the result depends on these three texts alone, and the
    /// name `regex_replace_first` stands for it. Nothing more is claimed.
    #[verifier::external_body]
    pub(crate) fn rewrite(&self, text: &str) -> (r: String)
        ensures
            r@ == regex_replace_first(self.pattern(), self.replacement(), text@),
    {
        self.regex.replace(text, self.replacement.as_str()).into_owned()
    }
}

/// The patterns and replacements that put icons in window titles, in the
/// order they apply.
pub open spec fn window_rewrite_rules() -> Seq<(Seq<char>, Seq<char>)> {
    seq![
        ("(.*) - YouTube"@, "󰗃  $1"@),
        ("(.*) — Mozilla Firefox Private Browsing"@, "<span foreground=\"#b13dff\">󰈹</span>  $1"@),
        ("(.*) — Mozilla Firefox"@, "󰈹  $1"@),
        ("(󰈹|>)  (󰗃)"@, "$1 $2"@),
        ("(.*) - Sublime Text \\(.*\\)"@, "  $1"@),
        ("(.*) - Discord"@, "󰙯  $1"@),
    ]
}

/// The patterns and replacements of the rules of `rules`.
pub open spec fn rule_texts(rules: Seq<TitleRewrite>) -> Seq<(Seq<char>, Seq<char>)> {
    Seq::new(rules.len(), |i: int| (rules[i].pattern(), rules[i].replacement()))
}

/// The rewrites that put icons in window titles, compiled; `None` if a
/// pattern does not compile.
pub fn window_rewrites() -> (r: Option<Vec<TitleRewrite>>)
    ensures
        r matches Some(v) ==> rule_texts(v@) == window_rewrite_rules(),
        r is None ==> exists|i: int|
            0 <= i < window_rewrite_rules().len() && !regex_accepts(
                #[trigger] window_rewrite_rules()[i].0,
            ),
{
    let mut out: Vec<TitleRewrite> = Vec::new();
    match TitleRewrite::new("(.*) - YouTube", "󰗃  $1") {
        Some(x) => out.push(x),
        None => {
            assert(!regex_accepts(window_rewrite_rules()[0].0));
            return None;
        },
    }
    match TitleRewrite::new("(.*) — Mozilla Firefox Private Browsing", "<span foreground=\"#b13dff\">󰈹</span>  $1") {
        Some(x) => out.push(x),
        None => {
            assert(!regex_accepts(window_rewrite_rules()[1].0));
            return None;
        },
    }
    match TitleRewrite::new("(.*) — Mozilla Firefox", "󰈹  $1") {
        Some(x) => out.push(x),
        None => {
            assert(!regex_accepts(window_rewrite_rules()[2].0));
            return None;
        },
    }
    match TitleRewrite::new("(󰈹|>)  (󰗃)", "$1 $2") {
        Some(x) => out.push(x),
        None => {
            assert(!regex_accepts(window_rewrite_rules()[3].0));
            return None;
        },
    }
    match TitleRewrite::new("(.*) - Sublime Text \\(.*\\)", "  $1") {
        Some(x) => out.push(x),
        None => {
            assert(!regex_accepts(window_rewrite_rules()[4].0));
            return None;
        },
    }
    match TitleRewrite::new("(.*) - Discord", "󰙯  $1") {
        Some(x) => out.push(x),
        None => {
            assert(!regex_accepts(window_rewrite_rules()[5].0));
            return None;
        },
    }
    assert(rule_texts(out@) =~= window_rewrite_rules());
    Some(out)
}

/// `text` rewritten by each rule of `rules` in turn.
pub open spec fn apply_rewrites(rules: Seq<(Seq<char>, Seq<char>)>, text: Seq<char>) -> Seq<char>
    decreases rules.len(),
{
    if rules.len() == 0 {
        text
    } else {
        let (p, r) = rules.last();
        regex_replace_first(p, r, apply_rewrites(rules.drop_last(), text))
    }
}

/// The markup shown for a window of class `class` whose title, escaped and
/// rewritten, is `text`: a terminal icon in front for `kitty`.
pub open spec fn spec_window_markup(class: Seq<char>, text: Seq<char>) -> Seq<char> {
    if class == "kitty"@ {
        "\u{e795}  "@ + text
    } else {
        text
    }
}

/// The markup shown for a window of class `class` whose title, escaped and
/// rewritten, is `text`.
pub fn window_markup(class: &str, text: String) -> (r: String)
    ensures
        r@ == spec_window_markup(class@, text@),
{
    let class_chars = crate::text::chars_of(class);
    if chars_eq_str(class_chars.as_slice(), "kitty") {
        let mut out = "\u{e795}  ".to_owned();
        out.append(text.as_str());
        proof {
            reveal_strlit("\u{e795}  ");
        }
        out
    } else {
        text
    }
}

/// The markup shown for a window of class `class` titled `title`: the title
/// escaped, then rewritten, with a terminal icon in front for `kitty`.
pub open spec fn spec_format_window(
    class: Seq<char>,
    title: Seq<char>,
    rules: Seq<(Seq<char>, Seq<char>)>,
) -> Seq<char> {
    spec_window_markup(class, apply_rewrites(rules, html_escaped(title)))
}

/// The markup shown for a window of class `class` titled `title`.
pub fn format_window(class: &str, title: &str, rules: &Vec<TitleRewrite>) -> (r: String)
    ensures
        r@ == spec_format_window(class@, title@, rule_texts(rules@)),
{
    let mut text = html_encode_text(title);
    let mut i: usize = 0;
    while i < rules.len()
        invariant
            i <= rules@.len(),
            text@ == apply_rewrites(rule_texts(rules@).take(i as int), html_escaped(title@)),
        decreases rules.len() - i,
    {
        let next = rules[i].rewrite(text.as_str());
        assert(rule_texts(rules@).take(i + 1).drop_last() =~= rule_texts(rules@).take(i as int));
        text = next;
        i = i + 1;
    }
    assert(rule_texts(rules@).take(i as int) =~= rule_texts(rules@));
    window_markup(class, text)
}

} // verus!
