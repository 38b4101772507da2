//! User configuration: the chosen digit font, persisted as a small JSON
//! document.

use vstd::prelude::*;

use crate::asci::digit_type::DigitType;
use crate::json::{
    lemma_parse_lit_at, lemma_parse_string_at, p_lit, p_skip_ws, p_string, parse_lit, parse_string,
    push_quoted, push_str_chars, quoted, skip_ws, suffix, ws_only,
};
use crate::text::{chars_vec, str_eq, string_from_chars};

verus! {

/// The persisted settings.
#[derive(Debug, Clone, Copy, PartialEq, Eq, Structural)]
pub struct Config {
    pub font: DigitType,
}

impl Default for Config {
    /// The default configuration.
    fn default() -> (r: Config)
        ensures
            r.font == DigitType::Italic,
    {
        Config { font: DigitType::Italic }
    }
}

/// The name a font is persisted under.
pub open spec fn font_name(d: DigitType) -> Seq<char> {
    match d {
        DigitType::Italic => "Italic"@,
        DigitType::Train => "Train"@,
        DigitType::Card => "Card"@,
    }
}

/// The font persisted under a name, if any.
pub open spec fn font_of_name(s: Seq<char>) -> Option<DigitType> {
    if s == "Italic"@ {
        Some(DigitType::Italic)
    } else if s == "Train"@ {
        Some(DigitType::Train)
    } else if s == "Card"@ {
        Some(DigitType::Card)
    } else {
        None
    }
}

/// The persisted configuration document.
pub open spec fn json_of_config(c: Config) -> Seq<char> {
    "{"@ + "\n  "@ + "\"font\""@ + ":"@ + " "@ + quoted(font_name(c.font)) + "\n"@ + "}"@
}

/// Reads a configuration document; anything malformed is `None`.
pub open spec fn parse_config_text(s: Seq<char>) -> Option<Config> {
    match parse_lit(s, "{"@) {
        None => None,
        Some(s1) => match parse_lit(s1, "\"font\""@) {
            None => None,
            Some(s2) => match parse_lit(s2, ":"@) {
                None => None,
                Some(s3) => match parse_string(s3) {
                    None => None,
                    Some((name, s4)) => match parse_lit(s4, "}"@) {
                        None => None,
                        Some(s5) => if skip_ws(s5).len() == 0 {
                            match font_of_name(name) {
                                Some(d) => Some(Config { font: d }),
                                None => None,
                            }
                        } else {
                            None
                        },
                    },
                },
            },
        },
    }
}

/// The literals of the configuration document.
proof fn lemma_config_lits()
    ensures
        ws_only(" "@),
        ws_only("\n"@),
        ws_only("\n  "@),
        ws_only(Seq::<char>::empty()),
        "{"@ =~= seq!['{'],
        "}"@ =~= seq!['}'],
        ":"@ =~= seq![':'],
        "\"font\""@.len() == 6 && "\"font\""@[0] == '"',
        "Italic"@.len() == 6,
        "Train"@.len() == 5,
        "Card"@.len() == 4,
{
    reveal_strlit(" ");
    reveal_strlit("\n");
    reveal_strlit("\n  ");
    reveal_strlit("{");
    reveal_strlit("}");
    reveal_strlit(":");
    reveal_strlit("\"font\"");
    reveal_strlit("Italic");
    reveal_strlit("Train");
    reveal_strlit("Card");
    assert forall|i: int| 0 <= i < " "@.len() implies crate::json::is_ws(#[trigger] " "@[i]) by {}
    assert forall|i: int| 0 <= i < "\n"@.len() implies crate::json::is_ws(#[trigger] "\n"@[i]) by {}
    assert forall|i: int|
        0 <= i < "\n  "@.len() implies crate::json::is_ws(#[trigger] "\n  "@[i]) by {}
}

/// Config round-trip: parsing the emitted document restores the same
/// configuration.
pub proof fn lemma_config_round_trip(c: Config)
    ensures
        parse_config_text(json_of_config(c)) == Some(c),
{
    lemma_config_lits();
    let e: Seq<char> = Seq::empty();
    let s4 = "\n"@ + "}"@ + e;
    let s3 = " "@ + quoted(font_name(c.font)) + s4;
    let s2 = e + ":"@ + s3;
    let s1 = "\n  "@ + "\"font\""@ + s2;
    let s0 = e + "{"@ + s1;
    assert(json_of_config(c) =~= s0);
    lemma_parse_lit_at(e, "{"@, s1);
    lemma_parse_lit_at("\n  "@, "\"font\""@, s2);
    lemma_parse_lit_at(e, ":"@, s3);
    lemma_parse_string_at(" "@, font_name(c.font), s4);
    lemma_parse_lit_at("\n"@, "}"@, e);
    assert(skip_ws(e).len() == 0);
    assert(font_of_name(font_name(c.font)) == Some(c.font));
    assert(Config { font: c.font } == c);
}

impl Config {
    /// Sets font to the given value; the caller persists the change.
    pub fn set_font(&mut self, font: DigitType)
        ensures
            final(self).font == font,
    {
        self.font = font;
    }

    /// Writes the configuration as its persisted JSON document.
    pub fn to_json(&self) -> (r: String)
        ensures
            r@ == json_of_config(*self),
    {
        let name: &str = match self.font {
            DigitType::Italic => "Italic",
            DigitType::Train => "Train",
            DigitType::Card => "Card",
        };
        let mut out: Vec<char> = Vec::new();
        push_str_chars(&mut out, "{");
        push_str_chars(&mut out, "\n  ");
        push_str_chars(&mut out, "\"font\"");
        push_str_chars(&mut out, ":");
        push_str_chars(&mut out, " ");
        push_quoted(&mut out, name);
        push_str_chars(&mut out, "\n");
        push_str_chars(&mut out, "}");
        let r = string_from_chars(&out);
        proof {
            assert(r@ =~= json_of_config(*self));
        }
        r
    }

    /// Reads a configuration document back; anything malformed is `None`.
    pub fn from_json(s: &str) -> (r: Option<Config>)
        ensures
            r == parse_config_text(s@),
    {
        proof {
            lemma_config_lits();
        }
        let v = chars_vec(s);
        proof {
            assert(suffix(v@, 0) =~= s@);
        }
        let j1 = match p_lit(&v, 0, "{") {
            Some(j) => j,
            None => {
                return None;
            },
        };
        let j2 = match p_lit(&v, j1, "\"font\"") {
            Some(j) => j,
            None => {
                return None;
            },
        };
        let j3 = match p_lit(&v, j2, ":") {
            Some(j) => j,
            None => {
                return None;
            },
        };
        let (name, j4) = match p_string(&v, j3) {
            Some(p) => p,
            None => {
                return None;
            },
        };
        let j5 = match p_lit(&v, j4, "}") {
            Some(j) => j,
            None => {
                return None;
            },
        };
        let j_end = p_skip_ws(&v, j5);
        if j_end != v.len() {
            proof {
                assert(skip_ws(suffix(v@, j5 as int)).len() > 0);
            }
            return None;
        }
        proof {
            assert(skip_ws(suffix(v@, j5 as int)).len() == 0);
        }
        if str_eq(name.as_str(), "Italic") {
            Some(Config { font: DigitType::Italic })
        } else if str_eq(name.as_str(), "Train") {
            Some(Config { font: DigitType::Train })
        } else if str_eq(name.as_str(), "Card") {
            Some(Config { font: DigitType::Card })
        } else {
            None
        }
    }
}

} // verus!
