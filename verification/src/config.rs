//! User configuration: sources and custom colour themes.
use vstd::prelude::*;

use crate::models::{contains_string, views};
use crate::strs::{
    all_digits, chars_of, decimal, is_hex, lemma_decimal_injective, push_decimal, push_str, str_eq, string_of, sub_vec,
    to_owned_string,
};

verus! {

broadcast use vstd::string::group_string_axioms;

/// The arXiv categories the sources popup offers, with their labels.
pub open spec fn spec_known_arxiv_cats() -> Seq<(Seq<char>, Seq<char>)> {
    seq![("cs.LG"@, "machine learning"@), ("cs.AI"@, "artificial intelligence"@), ("cs.CL"@, "natural language processing"@), ("cs.CV"@, "computer vision"@), ("cs.NE"@, "neural networks"@), ("cs.RO"@, "robotics"@), ("stat.ML"@, "statistics / machine learning"@)]
}

/// arXiv categories offered in the sources popup, with their labels.
pub fn known_arxiv_cats() -> (r: Vec<(&'static str, &'static str)>)
    ensures
        r@.len() == spec_known_arxiv_cats().len(),
        forall|i: int| 0 <= i < r@.len() ==> (#[trigger] r@[i]).0@ == spec_known_arxiv_cats()[i].0 && r@[i].1@ == spec_known_arxiv_cats()[i].1,
{
    let r = vec![
        ("cs.LG", "machine learning"),
        ("cs.AI", "artificial intelligence"),
        ("cs.CL", "natural language processing"),
        ("cs.CV", "computer vision"),
        ("cs.NE", "neural networks"),
        ("cs.RO", "robotics"),
        ("stat.ML", "statistics / machine learning"),
    ];
    proof {
        reveal_strlit("cs.LG");
        reveal_strlit("machine learning");
        reveal_strlit("cs.AI");
        reveal_strlit("artificial intelligence");
        reveal_strlit("cs.CL");
        reveal_strlit("natural language processing");
        reveal_strlit("cs.CV");
        reveal_strlit("computer vision");
        reveal_strlit("cs.NE");
        reveal_strlit("neural networks");
        reveal_strlit("cs.RO");
        reveal_strlit("robotics");
        reveal_strlit("stat.ML");
        reveal_strlit("statistics / machine learning");
    }
    r
}

/// The built-in (not custom) sources, in display order.
pub open spec fn spec_predefined_sources() -> Seq<Seq<char>> {
    seq!["huggingface"@, "openai"@, "deepmind"@, "import_ai"@, "bair"@, "mit_news_ai"@, "openreview"@, "core"@]
}

/// The built-in (not custom) sources, in display order.
pub fn predefined_sources() -> (r: Vec<&'static str>)
    ensures
        r@.len() == spec_predefined_sources().len(),
        forall|i: int| 0 <= i < r@.len() ==> (#[trigger] r@[i])@ == spec_predefined_sources()[i],
{
    let r = vec!["huggingface", "openai", "deepmind", "import_ai", "bair", "mit_news_ai", "openreview", "core"];
    proof {
        reveal_strlit("huggingface");
        reveal_strlit("openai");
        reveal_strlit("deepmind");
        reveal_strlit("import_ai");
        reveal_strlit("bair");
        reveal_strlit("mit_news_ai");
        reveal_strlit("openreview");
        reveal_strlit("core");
    }
    r
}

/// A feed added by the user.
#[derive(Debug, Clone)]
pub struct CustomFeed {
    pub url: String,
    pub name: String,
    pub feed_type: String,
}

/// Which sources are fetched.
#[derive(Debug, Clone)]
pub struct SourcesConfig {
    pub arxiv_categories: Vec<String>,
    /// Source name and whether it is on; the first entry for a name counts.
    pub enabled_sources: Vec<(String, bool)>,
    pub custom_feeds: Vec<CustomFeed>,
}

/// The switch recorded first for `name`.
pub open spec fn flag_of(s: Seq<(String, bool)>, name: Seq<char>) -> Option<bool>
    decreases s.len(),
{
    if s.len() == 0 {
        None
    } else if s[0].0@ == name {
        Some(s[0].1)
    } else {
        flag_of(s.drop_first(), name)
    }
}

impl SourcesConfig {
    /// Whether a source is fetched: as recorded, on when it is not listed.
    pub open spec fn spec_enabled(&self, name: Seq<char>) -> bool {
        match flag_of(self.enabled_sources@, name) {
            Some(b) => b,
            None => true,
        }
    }

    pub fn is_enabled(&self, name: &str) -> (r: bool)
        ensures
            r == self.spec_enabled(name@),
    {
        let mut i: usize = 0;
        assert(self.enabled_sources@.subrange(0, self.enabled_sources@.len() as int) =~= self.enabled_sources@);
        while i < self.enabled_sources.len()
            invariant
                0 <= i <= self.enabled_sources@.len(),
                flag_of(self.enabled_sources@, name@) == flag_of(
                    self.enabled_sources@.subrange(i as int, self.enabled_sources@.len() as int),
                    name@,
                ),
            decreases self.enabled_sources.len() - i,
        {
            let ghost rest = self.enabled_sources@.subrange(i as int, self.enabled_sources@.len() as int);
            assert(rest.drop_first() =~= self.enabled_sources@.subrange(i + 1, self.enabled_sources@.len() as int));
            if str_eq(self.enabled_sources[i].0.as_str(), name) {
                return self.enabled_sources[i].1;
            }
            i += 1;
        }
        true
    }

    /// Turn a source on or off.
    pub fn set_enabled(&mut self, name: &str, on: bool)
        ensures
            final(self).spec_enabled(name@) == on,
            forall|other: Seq<char>| other != name@ ==> #[trigger] final(self).spec_enabled(other) == old(self).spec_enabled(other),
            final(self).arxiv_categories == old(self).arxiv_categories,
            final(self).custom_feeds == old(self).custom_feeds,
    {
        let ghost old_list = self.enabled_sources@;
        let mut i: usize = 0;
        assert(old_list.subrange(0, old_list.len() as int) =~= old_list);
        while i < self.enabled_sources.len()
            invariant
                0 <= i <= self.enabled_sources@.len(),
                self.enabled_sources@ == old_list,
                old_list == old(self).enabled_sources@,
                self.arxiv_categories == old(self).arxiv_categories,
                self.custom_feeds == old(self).custom_feeds,
                forall|k: int| 0 <= k < i ==> #[trigger] old_list[k].0@ != name@,
            decreases self.enabled_sources.len() - i,
        {
            if str_eq(self.enabled_sources[i].0.as_str(), name) {
                let key = self.enabled_sources[i].0.clone();
                let ghost e = (key, on);
                self.enabled_sources.set(i, (key, on));
                proof { lemma_flag_update(old_list, i as int, name@, e); }
                assert(self.enabled_sources@ == old_list.update(i as int, e));
                return;
            }
            i += 1;
        }
        let key = to_owned_string(name);
        let ghost e = (key, on);
        self.enabled_sources.push((key, on));
        proof { lemma_flag_push(old_list, name@, e); }
        assert(self.enabled_sources@ == old_list.push(e));
    }
}

proof fn lemma_flag_update(s: Seq<(String, bool)>, i: int, name: Seq<char>, e: (String, bool))
    requires
        0 <= i < s.len(),
        s[i].0@ == name,
        e.0@ == name,
        forall|k: int| 0 <= k < i ==> #[trigger] s[k].0@ != name,
    ensures
        flag_of(s.update(i, e), name) == Some(e.1),
        forall|other: Seq<char>| other != name ==> #[trigger] flag_of(s.update(i, e), other) == flag_of(s, other),
    decreases i,
{
    if i > 0 {
        assert(s.update(i, e).drop_first() =~= s.drop_first().update(i - 1, e));
        assert forall|k: int| 0 <= k < i - 1 implies #[trigger] s.drop_first()[k].0@ != name by {
            assert(s.drop_first()[k] == s[k + 1]);
        }
        lemma_flag_update(s.drop_first(), i - 1, name, e);
        assert(s[0].0@ != name);
        assert(s.update(i, e)[0] == s[0]);
        assert forall|other: Seq<char>| other != name implies #[trigger] flag_of(s.update(i, e), other) == flag_of(s, other) by {
            assert(flag_of(s.drop_first().update(i - 1, e), other) == flag_of(s.drop_first(), other));
        }
    } else {
        assert(s.update(i, e).drop_first() =~= s.drop_first());
        assert(s.update(i, e)[0] == e);
        assert forall|other: Seq<char>| other != name implies #[trigger] flag_of(s.update(i, e), other) == flag_of(s, other) by {
            assert(s.update(i, e)[0].0@ != other);
            assert(s[0].0@ != other);
        }
    }
}

proof fn lemma_flag_push(s: Seq<(String, bool)>, name: Seq<char>, e: (String, bool))
    requires
        e.0@ == name,
        forall|k: int| 0 <= k < s.len() ==> #[trigger] s[k].0@ != name,
    ensures
        flag_of(s.push(e), name) == Some(e.1),
        forall|other: Seq<char>| other != name ==> #[trigger] flag_of(s.push(e), other) == flag_of(s, other),
    decreases s.len(),
{
    if s.len() > 0 {
        assert(s.push(e).drop_first() =~= s.drop_first().push(e));
        assert forall|k: int| 0 <= k < s.len() - 1 implies #[trigger] s.drop_first()[k].0@ != name by {
            assert(s.drop_first()[k] == s[k + 1]);
        }
        lemma_flag_push(s.drop_first(), name, e);
        assert(s[0].0@ != name);
    } else {
        assert(s.push(e).drop_first() =~= s);
    }
}

impl Default for SourcesConfig {
    /// ML arXiv categories, every built-in source on except `core` (which
    /// needs an API key), no custom feeds.
    fn default() -> (r: Self)
        ensures
            views(r.arxiv_categories@) == seq!["cs.LG"@, "cs.AI"@, "stat.ML"@],
            r.enabled_sources@.len() == spec_predefined_sources().len(),
            forall|i: int| 0 <= i < r.enabled_sources@.len() ==> (#[trigger] r.enabled_sources@[i]).0@ == spec_predefined_sources()[i]
                && r.enabled_sources@[i].1 == (spec_predefined_sources()[i] != "core"@),
            r.custom_feeds@.len() == 0,
    {
        let r = SourcesConfig {
            arxiv_categories: vec![to_owned_string("cs.LG"), to_owned_string("cs.AI"), to_owned_string("stat.ML")],
            enabled_sources: vec![
                (to_owned_string("huggingface"), true),
                (to_owned_string("openai"), true),
                (to_owned_string("deepmind"), true),
                (to_owned_string("import_ai"), true),
                (to_owned_string("bair"), true),
                (to_owned_string("mit_news_ai"), true),
                (to_owned_string("openreview"), true),
                (to_owned_string("core"), false),
            ],
            custom_feeds: Vec::new(),
        };
        proof {
            reveal_strlit("cs.LG");
            reveal_strlit("cs.AI");
            reveal_strlit("stat.ML");
            reveal_strlit("huggingface");
            reveal_strlit("openai");
            reveal_strlit("deepmind");
            reveal_strlit("import_ai");
            reveal_strlit("bair");
            reveal_strlit("mit_news_ai");
            reveal_strlit("openreview");
            reveal_strlit("core");
            assert(views(r.arxiv_categories@) =~= seq!["cs.LG"@, "cs.AI"@, "stat.ML"@]);
            assert("bair"@[0] != "core"@[0]);
            assert forall|i: int| 0 <= i < 8 implies (spec_predefined_sources()[i] != "core"@) == (i != 7) by {
                if i != 7 {
                    assert(spec_predefined_sources()[i].len() != 4 || spec_predefined_sources()[i][0] != 'c');
                }
            }
        }
        r
    }
}

/// A colour role that the custom theme editor offers.
#[derive(Debug, Clone, Copy)]
pub struct CustomThemeRole {
    pub key: &'static str,
    pub label: &'static str,
}
/// The colour roles the editor offers (key and label), in order.
pub open spec fn spec_custom_theme_roles() -> Seq<(Seq<char>, Seq<char>)> {
    seq![("accent"@, "Accent"@), ("header"@, "Headers"@), ("text"@, "Text"@), ("text_dim"@, "Dim text"@), ("border"@, "Border"@), ("border_active"@, "Active border"@), ("bg"@, "Background"@), ("bg_panel"@, "Panels"@), ("bg_input"@, "Inputs"@), ("bg_selection"@, "Selection"@), ("bg_popup"@, "Popups"@), ("success"@, "Success"@), ("warning"@, "Warning"@), ("error"@, "Error"@)]
}

/// The colour roles the editor offers, in order.
pub fn custom_theme_roles() -> (r: Vec<CustomThemeRole>)
    ensures
        r@.len() == spec_custom_theme_roles().len(),
        forall|i: int| 0 <= i < r@.len() ==> (#[trigger] r@[i]).key@ == spec_custom_theme_roles()[i].0 && r@[i].label@ == spec_custom_theme_roles()[i].1,
        forall|i: int| 0 <= i < r@.len() ==> is_role(#[trigger] r@[i].key@),
{
    let r = vec![
        CustomThemeRole { key: "accent", label: "Accent" },
        CustomThemeRole { key: "header", label: "Headers" },
        CustomThemeRole { key: "text", label: "Text" },
        CustomThemeRole { key: "text_dim", label: "Dim text" },
        CustomThemeRole { key: "border", label: "Border" },
        CustomThemeRole { key: "border_active", label: "Active border" },
        CustomThemeRole { key: "bg", label: "Background" },
        CustomThemeRole { key: "bg_panel", label: "Panels" },
        CustomThemeRole { key: "bg_input", label: "Inputs" },
        CustomThemeRole { key: "bg_selection", label: "Selection" },
        CustomThemeRole { key: "bg_popup", label: "Popups" },
        CustomThemeRole { key: "success", label: "Success" },
        CustomThemeRole { key: "warning", label: "Warning" },
        CustomThemeRole { key: "error", label: "Error" },
    ];
    proof {
        reveal_strlit("accent");
        reveal_strlit("Accent");
        reveal_strlit("header");
        reveal_strlit("Headers");
        reveal_strlit("text");
        reveal_strlit("Text");
        reveal_strlit("text_dim");
        reveal_strlit("Dim text");
        reveal_strlit("border");
        reveal_strlit("Border");
        reveal_strlit("border_active");
        reveal_strlit("Active border");
        reveal_strlit("bg");
        reveal_strlit("Background");
        reveal_strlit("bg_panel");
        reveal_strlit("Panels");
        reveal_strlit("bg_input");
        reveal_strlit("Inputs");
        reveal_strlit("bg_selection");
        reveal_strlit("Selection");
        reveal_strlit("bg_popup");
        reveal_strlit("Popups");
        reveal_strlit("success");
        reveal_strlit("Success");
        reveal_strlit("warning");
        reveal_strlit("Warning");
        reveal_strlit("error");
        reveal_strlit("Error");
    }
    r
}
/// Colours of a custom theme, as `#RRGGBB` texts.
#[derive(Debug, Clone)]
pub struct CustomThemeColors {
    pub accent: String,
    pub header: String,
    pub text: String,
    pub text_dim: String,
    pub border: String,
    pub border_active: String,
    pub bg: String,
    pub bg_panel: String,
    pub bg_input: String,
    pub bg_selection: String,
    pub bg_code: String,
    pub bg_chat: String,
    pub bg_user_msg: String,
    pub bg_popup: String,
    pub text_on_accent: String,
    pub success: String,
    pub warning: String,
    pub error: String,
    pub math: String,
    pub mono: String,
    pub rule: String,
    pub toc_dim: String,
    pub bookmark_bg: String,
    pub cursor_bg: String,
    pub cursor_fg: String,
    pub search_match_bg: String,
    pub search_match_fg: String,
}
/// Whether `key` names an editable colour role.
pub open spec fn is_role(key: Seq<char>) -> bool {
    key == "accent"@
        || key == "header"@
        || key == "text"@
        || key == "text_dim"@
        || key == "border"@
        || key == "border_active"@
        || key == "bg"@
        || key == "bg_panel"@
        || key == "bg_input"@
        || key == "bg_selection"@
        || key == "bg_popup"@
        || key == "success"@
        || key == "warning"@
        || key == "error"@
}
impl CustomThemeColors {
    /// The colour of a role, by its key.
    pub open spec fn role_value(&self, key: Seq<char>) -> Option<Seq<char>> {
        if key == "accent"@ {
            Some(self.accent@)
        } else if key == "header"@ {
            Some(self.header@)
        } else if key == "text"@ {
            Some(self.text@)
        } else if key == "text_dim"@ {
            Some(self.text_dim@)
        } else if key == "border"@ {
            Some(self.border@)
        } else if key == "border_active"@ {
            Some(self.border_active@)
        } else if key == "bg"@ {
            Some(self.bg@)
        } else if key == "bg_panel"@ {
            Some(self.bg_panel@)
        } else if key == "bg_input"@ {
            Some(self.bg_input@)
        } else if key == "bg_selection"@ {
            Some(self.bg_selection@)
        } else if key == "bg_popup"@ {
            Some(self.bg_popup@)
        } else if key == "success"@ {
            Some(self.success@)
        } else if key == "warning"@ {
            Some(self.warning@)
        } else if key == "error"@ {
            Some(self.error@)
        } else {
            None
        }
    }

    /// The colours that are not editable roles.
    pub open spec fn fixed_colors(&self) -> Seq<Seq<char>> {
        seq![self.bg_code@, self.bg_chat@, self.bg_user_msg@, self.text_on_accent@, self.math@, self.mono@, self.rule@, self.toc_dim@, self.bookmark_bg@, self.cursor_bg@, self.cursor_fg@, self.search_match_bg@, self.search_match_fg@]
    }

    /// The colour of a role (none for an unknown key).
    pub fn get_role(&self, key: &str) -> (r: Option<&str>)
        ensures
            crate::models::opt_str_view(r) == self.role_value(key@),
    {
        if str_eq(key, "accent") {
            Some(self.accent.as_str())
        } else if str_eq(key, "header") {
            Some(self.header.as_str())
        } else if str_eq(key, "text") {
            Some(self.text.as_str())
        } else if str_eq(key, "text_dim") {
            Some(self.text_dim.as_str())
        } else if str_eq(key, "border") {
            Some(self.border.as_str())
        } else if str_eq(key, "border_active") {
            Some(self.border_active.as_str())
        } else if str_eq(key, "bg") {
            Some(self.bg.as_str())
        } else if str_eq(key, "bg_panel") {
            Some(self.bg_panel.as_str())
        } else if str_eq(key, "bg_input") {
            Some(self.bg_input.as_str())
        } else if str_eq(key, "bg_selection") {
            Some(self.bg_selection.as_str())
        } else if str_eq(key, "bg_popup") {
            Some(self.bg_popup.as_str())
        } else if str_eq(key, "success") {
            Some(self.success.as_str())
        } else if str_eq(key, "warning") {
            Some(self.warning.as_str())
        } else if str_eq(key, "error") {
            Some(self.error.as_str())
        } else {
            None
        }
    }

    /// Set the colour of a role; false (and nothing changed) for an unknown
    /// key.
    pub fn set_role(&mut self, key: &str, value: String) -> (r: bool)
        ensures
            r == is_role(key@),
            r ==> final(self).role_value(key@) == Some(value@),
            forall|other: Seq<char>| other != key@ ==> #[trigger] final(self).role_value(other) == old(self).role_value(other),
            final(self).fixed_colors() == old(self).fixed_colors(),
    {
        if str_eq(key, "accent") {
            self.accent = value;
        } else if str_eq(key, "header") {
            self.header = value;
        } else if str_eq(key, "text") {
            self.text = value;
        } else if str_eq(key, "text_dim") {
            self.text_dim = value;
        } else if str_eq(key, "border") {
            self.border = value;
        } else if str_eq(key, "border_active") {
            self.border_active = value;
        } else if str_eq(key, "bg") {
            self.bg = value;
        } else if str_eq(key, "bg_panel") {
            self.bg_panel = value;
        } else if str_eq(key, "bg_input") {
            self.bg_input = value;
        } else if str_eq(key, "bg_selection") {
            self.bg_selection = value;
        } else if str_eq(key, "bg_popup") {
            self.bg_popup = value;
        } else if str_eq(key, "success") {
            self.success = value;
        } else if str_eq(key, "warning") {
            self.warning = value;
        } else if str_eq(key, "error") {
            self.error = value;
        } else {
            return false;
        }
        true
    }
}
/// A value written to a role reads back; other roles keep theirs.
pub proof fn law_role_write_read(before: CustomThemeColors, after: CustomThemeColors, key: Seq<char>, value: Seq<char>)
    requires
        is_role(key),
        after.role_value(key) == Some(value),
        forall|other: Seq<char>| other != key ==> #[trigger] after.role_value(other) == before.role_value(other),
    ensures
        after.role_value(key) == Some(value),
        is_role(key) <==> before.role_value(key) is Some,
{
}

/// A terminal colour, as the theme code names it.
#[derive(Debug, Clone, Copy, PartialEq, Eq, Structural)]
pub enum TermColor {
    Rgb(u8, u8, u8),
    Black,
    White,
    Red,
    Green,
    Blue,
    Yellow,
    Cyan,
    Magenta,
    Gray,
    DarkGray,
    LightRed,
    LightGreen,
    LightBlue,
    LightYellow,
    LightCyan,
    LightMagenta,
    /// Any other colour (indexed, reset, ...).
    Other,
}

/// The value of a hexadecimal digit.
pub open spec fn hex_value(c: char) -> int {
    if '0' <= c && c <= '9' {
        c as int - '0' as int
    } else if 'a' <= c && c <= 'f' {
        c as int - 'a' as int + 10
    } else {
        c as int - 'A' as int + 10
    }
}

/// The text after an optional leading `#`.
pub open spec fn hex_part(value: Seq<char>) -> Seq<char> {
    if value.len() > 0 && value[0] == '#' {
        value.drop_first()
    } else {
        value
    }
}

pub open spec fn six_hex_digits(h: Seq<char>) -> bool {
    forall|i: int| 0 <= i < 6 ==> is_hex(#[trigger] h[i])
}

/// `#RRGGBB` or `RRGGBB` (six hexadecimal digits) as red, green, blue.
pub open spec fn spec_parse_hex_color(value: Seq<char>) -> Option<(u8, u8, u8)> {
    let hex = hex_part(value);
    if hex.len() != 6 || !six_hex_digits(hex) {
        None
    } else {
        Some(
            (
                (hex_value(hex[0]) * 16 + hex_value(hex[1])) as u8,
                (hex_value(hex[2]) * 16 + hex_value(hex[3])) as u8,
                (hex_value(hex[4]) * 16 + hex_value(hex[5])) as u8,
            ),
        )
    }
}

fn hex_digit_value(c: char) -> (r: u8)
    requires
        is_hex(c),
    ensures
        r == hex_value(c),
        r < 16,
{
    if '0' <= c && c <= '9' {
        (c as u32 - 48) as u8
    } else if 'a' <= c && c <= 'f' {
        (c as u32 - 97 + 10) as u8
    } else {
        (c as u32 - 65 + 10) as u8
    }
}

/// Parse `#RRGGBB` (the `#` is optional).
pub fn parse_hex_color(value: &str) -> (r: Option<TermColor>)
    ensures
        match spec_parse_hex_color(value@) {
            Some((red, green, blue)) => r == Some(TermColor::Rgb(red, green, blue)),
            None => r is None,
        },
{
    let v = chars_of(value);
    let hex = if v.len() > 0 && v[0] == '#' {
        let h = sub_vec(&v, 1, v.len());
        assert(h@ =~= v@.drop_first());
        h
    } else {
        let h = sub_vec(&v, 0, v.len());
        assert(h@ =~= v@);
        h
    };
    assert(hex@ == hex_part(value@));
    if hex.len() != 6 {
        return None;
    }
    let mut i: usize = 0;
    while i < 6
        invariant
            0 <= i <= 6,
            hex@.len() == 6,
            hex@ == hex_part(value@),
            forall|k: int| 0 <= k < i ==> is_hex(#[trigger] hex@[k]),
        decreases 6 - i,
    {
        if !crate::strs::is_ascii_hex(hex[i]) {
            assert(!is_hex(hex@[i as int]));
            assert(!six_hex_digits(hex@));
            return None;
        }
        i += 1;
    }
    let r = hex_digit_value(hex[0]) * 16 + hex_digit_value(hex[1]);
    let g = hex_digit_value(hex[2]) * 16 + hex_digit_value(hex[3]);
    let b = hex_digit_value(hex[4]) * 16 + hex_digit_value(hex[5]);
    Some(TermColor::Rgb(r, g, b))
}

/// Two upper-case hexadecimal digits.
pub open spec fn hex2(b: u8) -> Seq<char> {
    seq![crate::arxiv::hex_digit(b as int / 16), crate::arxiv::hex_digit(b as int % 16)]
}

/// A colour as `#RRGGBB`: the named colours have fixed values; any other
/// colour shows as black.
pub open spec fn spec_color_to_hex(c: TermColor) -> Seq<char> {
    match c {
        TermColor::Rgb(r, g, b) => seq!['#'] + hex2(r) + hex2(g) + hex2(b),
        TermColor::Black => "#000000"@,
        TermColor::White => "#FFFFFF"@,
        TermColor::Red => "#FF0000"@,
        TermColor::Green => "#00FF00"@,
        TermColor::Blue => "#0000FF"@,
        TermColor::Yellow => "#FFFF00"@,
        TermColor::Cyan => "#00FFFF"@,
        TermColor::Magenta => "#FF00FF"@,
        TermColor::Gray => "#808080"@,
        TermColor::DarkGray => "#404040"@,
        TermColor::LightRed => "#FF6666"@,
        TermColor::LightGreen => "#66FF66"@,
        TermColor::LightBlue => "#6666FF"@,
        TermColor::LightYellow => "#FFFF66"@,
        TermColor::LightCyan => "#66FFFF"@,
        TermColor::LightMagenta => "#FF66FF"@,
        TermColor::Other => "#000000"@,
    }
}

fn push_hex2(v: &mut Vec<char>, b: u8)
    ensures
        final(v)@ == old(v)@ + hex2(b),
{
    v.push(crate::arxiv::hex_char_pub(b / 16));
    v.push(crate::arxiv::hex_char_pub(b % 16));
}

pub fn color_to_hex(color: TermColor) -> (r: String)
    ensures
        r@ == spec_color_to_hex(color),
{
    match color {
        TermColor::Rgb(r, g, b) => {
            let mut v: Vec<char> = Vec::new();
            v.push('#');
            push_hex2(&mut v, r);
            push_hex2(&mut v, g);
            push_hex2(&mut v, b);
            assert(v@ =~= seq!['#'] + hex2(r) + hex2(g) + hex2(b));
            string_of(&v)
        },
        TermColor::Black => to_owned_string("#000000"),
        TermColor::White => to_owned_string("#FFFFFF"),
        TermColor::Red => to_owned_string("#FF0000"),
        TermColor::Green => to_owned_string("#00FF00"),
        TermColor::Blue => to_owned_string("#0000FF"),
        TermColor::Yellow => to_owned_string("#FFFF00"),
        TermColor::Cyan => to_owned_string("#00FFFF"),
        TermColor::Magenta => to_owned_string("#FF00FF"),
        TermColor::Gray => to_owned_string("#808080"),
        TermColor::DarkGray => to_owned_string("#404040"),
        TermColor::LightRed => to_owned_string("#FF6666"),
        TermColor::LightGreen => to_owned_string("#66FF66"),
        TermColor::LightBlue => to_owned_string("#6666FF"),
        TermColor::LightYellow => to_owned_string("#FFFF66"),
        TermColor::LightCyan => to_owned_string("#66FFFF"),
        TermColor::LightMagenta => to_owned_string("#FF66FF"),
        TermColor::Other => to_owned_string("#000000"),
    }
}

/// A colour written as text parses back to the same red, green and blue.
pub proof fn law_hex_round_trip(r: u8, g: u8, b: u8)
    ensures
        spec_parse_hex_color(spec_color_to_hex(TermColor::Rgb(r, g, b))) == Some((r, g, b)),
{
    let s = spec_color_to_hex(TermColor::Rgb(r, g, b));
    let hex = hex_part(s);
    assert(hex == s.drop_first());
    lemma_hex2(r);
    lemma_hex2(g);
    lemma_hex2(b);
    assert(hex =~= hex2(r) + hex2(g) + hex2(b));
    assert(hex[0] == hex2(r)[0] && hex[1] == hex2(r)[1]);
    assert(hex[2] == hex2(g)[0] && hex[3] == hex2(g)[1]);
    assert(hex[4] == hex2(b)[0] && hex[5] == hex2(b)[1]);
}

proof fn lemma_hex2(b: u8)
    ensures
        is_hex(hex2(b)[0]),
        is_hex(hex2(b)[1]),
        hex_value(hex2(b)[0]) * 16 + hex_value(hex2(b)[1]) == b,
{
    let hi = b as int / 16;
    let lo = b as int % 16;
    assert(0 <= hi < 16 && 0 <= lo < 16);
    assert(hi * 16 + lo == b);
}

// ---------------------------------------------------------------------------
// Names for new custom themes
// ---------------------------------------------------------------------------

/// `prefix` followed by the decimal digits of `n`.
pub open spec fn numbered(prefix: Seq<char>, n: nat) -> Seq<char> {
    prefix + decimal(n)
}

/// `n` is the least number from 1 up whose numbered name is not taken.
pub open spec fn first_free(prefix: Seq<char>, taken: Seq<Seq<char>>, n: nat) -> bool {
    &&& n >= 1
    &&& !taken.contains(numbered(prefix, n))
    &&& forall|m: nat| 1 <= m < n ==> taken.contains(#[trigger] numbered(prefix, m))
}

proof fn lemma_numbered_injective(prefix: Seq<char>, a: nat, b: nat)
    ensures
        numbered(prefix, a) == numbered(prefix, b) ==> a == b,
{
    if numbered(prefix, a) == numbered(prefix, b) {
        assert(numbered(prefix, a).skip(prefix.len() as int) =~= decimal(a));
        assert(numbered(prefix, b).skip(prefix.len() as int) =~= decimal(b));
        lemma_decimal_injective(a, b);
    }
}

/// The first of `prefix` 1, `prefix` 2, ... that is not among `taken`.
fn first_free_name(prefix: &str, taken: &Vec<String>) -> (r: String)
    requires
        taken@.len() < usize::MAX,
    ensures
        exists|n: nat| first_free(prefix@, views(taken@), n) && r@ == numbered(prefix@, n),
{
    let ghost names = views(taken@);
    let ghost mut used: Set<Seq<char>> = Set::empty();
    proof {
        names.lemma_cardinality_of_set();
    }
    let mut n: usize = 1;
    loop
        invariant
            1 <= n <= taken@.len() + 1,
            taken@.len() < usize::MAX,
            names == views(taken@),
            names.to_set().len() <= taken@.len(),
            used.finite(),
            used.len() == n - 1,
            used.subset_of(names.to_set()),
            forall|m: nat| 1 <= m < n ==> names.contains(#[trigger] numbered(prefix@, m)),
            forall|x: Seq<char>| #[trigger] used.contains(x) ==> exists|m: nat| 1 <= m < n && x == numbered(prefix@, m),
        decreases taken@.len() + 1 - n,
    {
        let mut v = chars_of(prefix);
        push_decimal(&mut v, n as u64);
        let candidate = string_of(&v);
        assert(candidate@ == numbered(prefix@, n as nat));
        if !contains_string(taken, candidate.as_str()) {
            return candidate;
        }
        proof {
            let x = numbered(prefix@, n as nat);
            assert(!used.contains(x)) by {
                if used.contains(x) {
                    let m = choose|m: nat| 1 <= m < n && x == numbered(prefix@, m);
                    lemma_numbered_injective(prefix@, m, n as nat);
                }
            }
            assert(names.to_set().contains(x));
            used = used.insert(x);
            assert(used.len() == n);
            vstd::set_lib::lemma_len_subset(used, names.to_set());
            assert(n <= taken@.len());
            assert forall|y: Seq<char>| #[trigger] used.contains(y) implies exists|m: nat| 1 <= m < n + 1 && y == numbered(prefix@, m) by {
                if y != x {
                    let m = choose|m: nat| 1 <= m < n && y == numbered(prefix@, m);
                    assert(1 <= m < n + 1 && y == numbered(prefix@, m));
                } else {
                    assert(1 <= n < n + 1 && y == numbered(prefix@, n as nat));
                }
            }
        }
        n += 1;
    }
}

/// Display name for a new custom theme: `Custom 1`, `Custom 2`, ... the first
/// that no existing custom theme uses.
pub fn next_custom_theme_name(names: &Vec<String>) -> (r: String)
    requires
        names@.len() < usize::MAX,
    ensures
        exists|n: nat| first_free("Custom "@, views(names@), n) && r@ == numbered("Custom "@, n),
{
    first_free_name("Custom ", names)
}

/// Id for a new custom theme: `custom-1`, `custom-2`, ... the first that no
/// existing custom theme uses.
pub fn next_custom_theme_id(ids: &Vec<String>) -> (r: String)
    requires
        ids@.len() < usize::MAX,
    ensures
        exists|n: nat| first_free("custom-"@, views(ids@), n) && r@ == numbered("custom-"@, n),
{
    first_free_name("custom-", ids)
}

} // verus!
