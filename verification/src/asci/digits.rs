//! The ASCII-art digit tables of the three fonts.

use vstd::prelude::*;

use crate::asci::digit_type::DigitType;

verus! {

/// How many rows every character of a font has.
pub open spec fn font_height(font: DigitType) -> int {
    match font {
        DigitType::Italic => 5,
        DigitType::Train => 6,
        DigitType::Card => 6,
    }
}

/// How wide every row of a character is in a font.
pub open spec fn row_width(font: DigitType, c: char) -> int {
    match font {
        DigitType::Italic => if c == '.' {
            5
        } else {
            9
        },
        DigitType::Train => 8,
        DigitType::Card => 8,
    }
}

/// True on the characters the fonts can draw: the decimal digits and the
/// decimal point.
pub open spec fn drawable(c: char) -> bool {
    crate::text::is_digit_char(c) || c == '.'
}

/// Gets the ASCII art for one character of the chosen font: one string
/// per row, all rows of one character equally wide.
pub fn get_digits(font: &DigitType, c: char) -> (r: Vec<String>)
    requires
        drawable(c),
    ensures
        r@.len() == font_height(*font),
        forall|i: int| 0 <= i < r@.len() ==> (#[trigger] r@[i])@.len() == row_width(*font, c),
{
    match font {
        DigitType::Italic => italic_rows(c),
        DigitType::Train => train_rows(c),
        DigitType::Card => card_rows(c),
    }
}

/// Builds the row vector of one character.
fn rows5(a: &str, b: &str, c: &str, d: &str, e: &str) -> (r: Vec<String>)
    ensures
        r@.len() == 5,
        r@[0]@ == a@,
        r@[1]@ == b@,
        r@[2]@ == c@,
        r@[3]@ == d@,
        r@[4]@ == e@,
{
    let mut v: Vec<String> = Vec::new();
    v.push(String::from_str(a));
    v.push(String::from_str(b));
    v.push(String::from_str(c));
    v.push(String::from_str(d));
    v.push(String::from_str(e));
    v
}

/// Builds the row vector of one character.
fn rows6(a: &str, b: &str, c: &str, d: &str, e: &str, f: &str) -> (r: Vec<String>)
    ensures
        r@.len() == 6,
        r@[0]@ == a@,
        r@[1]@ == b@,
        r@[2]@ == c@,
        r@[3]@ == d@,
        r@[4]@ == e@,
        r@[5]@ == f@,
{
    let mut v: Vec<String> = Vec::new();
    v.push(String::from_str(a));
    v.push(String::from_str(b));
    v.push(String::from_str(c));
    v.push(String::from_str(d));
    v.push(String::from_str(e));
    v.push(String::from_str(f));
    v
}

/// The Italic font.
fn italic_rows(c: char) -> (r: Vec<String>)
    requires
        drawable(c),
    ensures
        r@.len() == font_height(DigitType::Italic),
        forall|i: int| 0 <= i < r@.len() ==> (#[trigger] r@[i])@.len() == row_width(
            DigitType::Italic,
            c,
        ),
{
    if c == '0' {
        proof {
            reveal_strlit("  ____   ");
            reveal_strlit(" /\\   \\  ");
            reveal_strlit(" \\ \\ \\ \\ ");
            reveal_strlit("  \\ \\___\\");
            reveal_strlit("   \\/___/");
        }
        let r = rows5(
            "  ____   ",
            " /\\   \\  ",
            " \\ \\ \\ \\ ",
            "  \\ \\___\\",
            "   \\/___/",
        );
        proof {
            assert(r@[0]@.len() == 9);
            assert(r@[1]@.len() == 9);
            assert(r@[2]@.len() == 9);
            assert(r@[3]@.len() == 9);
            assert(r@[4]@.len() == 9);
        }
        r
    } else if c == '1' {
        proof {
            reveal_strlit("  ___    ");
            reveal_strlit(" /\\  \\   ");
            reveal_strlit(" \\ \\  \\  ");
            reveal_strlit("  \\ \\__\\ ");
            reveal_strlit("   \\/__/ ");
        }
        let r = rows5(
            "  ___    ",
            " /\\  \\   ",
            " \\ \\  \\  ",
            "  \\ \\__\\ ",
            "   \\/__/ ",
        );
        proof {
            assert(r@[0]@.len() == 9);
            assert(r@[1]@.len() == 9);
            assert(r@[2]@.len() == 9);
            assert(r@[3]@.len() == 9);
            assert(r@[4]@.len() == 9);
        }
        r
    } else if c == '2' {
        proof {
            reveal_strlit(" _____   ");
            reveal_strlit("/\\__  \\  ");
            reveal_strlit("\\/\\  __\\ ");
            reveal_strlit(" \\ \\____\\");
            reveal_strlit("  \\/____/");
        }
        let r = rows5(
            " _____   ",
            "/\\__  \\  ",
            "\\/\\  __\\ ",
            " \\ \\____\\",
            "  \\/____/",
        );
        proof {
            assert(r@[0]@.len() == 9);
            assert(r@[1]@.len() == 9);
            assert(r@[2]@.len() == 9);
            assert(r@[3]@.len() == 9);
            assert(r@[4]@.len() == 9);
        }
        r
    } else if c == '3' {
        proof {
            reveal_strlit(" _____   ");
            reveal_strlit("/\\__  \\  ");
            reveal_strlit("\\/\\__  \\ ");
            reveal_strlit(" \\/\\____\\");
            reveal_strlit("  \\/____/");
        }
        let r = rows5(
            " _____   ",
            "/\\__  \\  ",
            "\\/\\__  \\ ",
            " \\/\\____\\",
            "  \\/____/",
        );
        proof {
            assert(r@[0]@.len() == 9);
            assert(r@[1]@.len() == 9);
            assert(r@[2]@.len() == 9);
            assert(r@[3]@.len() == 9);
            assert(r@[4]@.len() == 9);
        }
        r
    } else if c == '4' {
        proof {
            reveal_strlit(" ___     ");
            reveal_strlit("/\\  \\__  ");
            reveal_strlit("\\ \\__  \\ ");
            reveal_strlit(" \\/_/\\__\\");
            reveal_strlit("    \\/__/");
        }
        let r = rows5(
            " ___     ",
            "/\\  \\__  ",
            "\\ \\__  \\ ",
            " \\/_/\\__\\",
            "    \\/__/",
        );
        proof {
            assert(r@[0]@.len() == 9);
            assert(r@[1]@.len() == 9);
            assert(r@[2]@.len() == 9);
            assert(r@[3]@.len() == 9);
            assert(r@[4]@.len() == 9);
        }
        r
    } else if c == '5' {
        proof {
            reveal_strlit(" _____   ");
            reveal_strlit("/\\  __\\  ");
            reveal_strlit("\\ \\__  \\ ");
            reveal_strlit(" \\/\\____\\");
            reveal_strlit("  \\/____/");
        }
        let r = rows5(
            " _____   ",
            "/\\  __\\  ",
            "\\ \\__  \\ ",
            " \\/\\____\\",
            "  \\/____/",
        );
        proof {
            assert(r@[0]@.len() == 9);
            assert(r@[1]@.len() == 9);
            assert(r@[2]@.len() == 9);
            assert(r@[3]@.len() == 9);
            assert(r@[4]@.len() == 9);
        }
        r
    } else if c == '6' {
        proof {
            reveal_strlit(" _____   ");
            reveal_strlit("/\\  __\\  ");
            reveal_strlit("\\ \\  _ \\ ");
            reveal_strlit(" \\ \\____\\");
            reveal_strlit("  \\/____/");
        }
        let r = rows5(
            " _____   ",
            "/\\  __\\  ",
            "\\ \\  _ \\ ",
            " \\ \\____\\",
            "  \\/____/",
        );
        proof {
            assert(r@[0]@.len() == 9);
            assert(r@[1]@.len() == 9);
            assert(r@[2]@.len() == 9);
            assert(r@[3]@.len() == 9);
            assert(r@[4]@.len() == 9);
        }
        r
    } else if c == '7' {
        proof {
            reveal_strlit(" _____   ");
            reveal_strlit("/\\__  \\  ");
            reveal_strlit("\\/_/\\  \\ ");
            reveal_strlit("   \\ \\__\\");
            reveal_strlit("    \\/__/");
        }
        let r = rows5(
            " _____   ",
            "/\\__  \\  ",
            "\\/_/\\  \\ ",
            "   \\ \\__\\",
            "    \\/__/",
        );
        proof {
            assert(r@[0]@.len() == 9);
            assert(r@[1]@.len() == 9);
            assert(r@[2]@.len() == 9);
            assert(r@[3]@.len() == 9);
            assert(r@[4]@.len() == 9);
        }
        r
    } else if c == '8' {
        proof {
            reveal_strlit(" _____   ");
            reveal_strlit("/\\  _ \\  ");
            reveal_strlit("\\ \\  _ \\ ");
            reveal_strlit(" \\ \\____\\");
            reveal_strlit("  \\/____/");
        }
        let r = rows5(
            " _____   ",
            "/\\  _ \\  ",
            "\\ \\  _ \\ ",
            " \\ \\____\\",
            "  \\/____/",
        );
        proof {
            assert(r@[0]@.len() == 9);
            assert(r@[1]@.len() == 9);
            assert(r@[2]@.len() == 9);
            assert(r@[3]@.len() == 9);
            assert(r@[4]@.len() == 9);
        }
        r
    } else if c == '9' {
        proof {
            reveal_strlit(" _____   ");
            reveal_strlit("/\\  _ \\  ");
            reveal_strlit("\\ \\__  \\ ");
            reveal_strlit(" \\/\\____\\");
            reveal_strlit("  \\/____/");
        }
        let r = rows5(
            " _____   ",
            "/\\  _ \\  ",
            "\\ \\__  \\ ",
            " \\/\\____\\",
            "  \\/____/",
        );
        proof {
            assert(r@[0]@.len() == 9);
            assert(r@[1]@.len() == 9);
            assert(r@[2]@.len() == 9);
            assert(r@[3]@.len() == 9);
            assert(r@[4]@.len() == 9);
        }
        r
    } else {
        proof {
            reveal_strlit("     ");
            reveal_strlit("     ");
            reveal_strlit("  __ ");
            reveal_strlit(" /\\_\\");
            reveal_strlit(" \\/_/");
        }
        let r = rows5(
            "     ",
            "     ",
            "  __ ",
            " /\\_\\",
            " \\/_/",
        );
        proof {
            assert(r@[0]@.len() == 5);
            assert(r@[1]@.len() == 5);
            assert(r@[2]@.len() == 5);
            assert(r@[3]@.len() == 5);
            assert(r@[4]@.len() == 5);
        }
        r
    }
}

/// The Train font.
fn train_rows(c: char) -> (r: Vec<String>)
    requires
        drawable(c),
    ensures
        r@.len() == font_height(DigitType::Train),
        forall|i: int| 0 <= i < r@.len() ==> (#[trigger] r@[i])@.len() == row_width(
            DigitType::Train,
            c,
        ),
{
    if c == '0' {
        proof {
            reveal_strlit("    __  ");
            reveal_strlit("   /  \\ ");
            reveal_strlit("  | () |");
            reveal_strlit("  _\\__/ ");
            reveal_strlit("_|\"\"\"\"\"|");
            reveal_strlit("\"`-0-0-'");
        }
        let r = rows6(
            "    __  ",
            "   /  \\ ",
            "  | () |",
            "  _\\__/ ",
            "_|\"\"\"\"\"|",
            "\"`-0-0-'",
        );
        proof {
            assert(r@[0]@.len() == 8);
            assert(r@[1]@.len() == 8);
            assert(r@[2]@.len() == 8);
            assert(r@[3]@.len() == 8);
            assert(r@[4]@.len() == 8);
            assert(r@[5]@.len() == 8);
        }
        r
    } else if c == '1' {
        proof {
            reveal_strlit("    _   ");
            reveal_strlit("   / |  ");
            reveal_strlit("   | |  ");
            reveal_strlit("  _|_|_ ");
            reveal_strlit("_|\"\"\"\"\"|");
            reveal_strlit("\"`-0-0-'");
        }
        let r = rows6(
            "    _   ",
            "   / |  ",
            "   | |  ",
            "  _|_|_ ",
            "_|\"\"\"\"\"|",
            "\"`-0-0-'",
        );
        proof {
            assert(r@[0]@.len() == 8);
            assert(r@[1]@.len() == 8);
            assert(r@[2]@.len() == 8);
            assert(r@[3]@.len() == 8);
            assert(r@[4]@.len() == 8);
            assert(r@[5]@.len() == 8);
        }
        r
    } else if c == '2' {
        proof {
            reveal_strlit("   ___  ");
            reveal_strlit("  |_  ) ");
            reveal_strlit("   / /  ");
            reveal_strlit("  /___| ");
            reveal_strlit("_|\"\"\"\"\"|");
            reveal_strlit("\"`-0-0-'");
        }
        let r = rows6(
            "   ___  ",
            "  |_  ) ",
            "   / /  ",
            "  /___| ",
            "_|\"\"\"\"\"|",
            "\"`-0-0-'",
        );
        proof {
            assert(r@[0]@.len() == 8);
            assert(r@[1]@.len() == 8);
            assert(r@[2]@.len() == 8);
            assert(r@[3]@.len() == 8);
            assert(r@[4]@.len() == 8);
            assert(r@[5]@.len() == 8);
        }
        r
    } else if c == '3' {
        proof {
            reveal_strlit("   ____ ");
            reveal_strlit("  |__ / ");
            reveal_strlit("   |_ \\ ");
            reveal_strlit("  |___/ ");
            reveal_strlit("_|\"\"\"\"\"|");
            reveal_strlit("\"`-0-0-'");
        }
        let r = rows6(
            "   ____ ",
            "  |__ / ",
            "   |_ \\ ",
            "  |___/ ",
            "_|\"\"\"\"\"|",
            "\"`-0-0-'",
        );
        proof {
            assert(r@[0]@.len() == 8);
            assert(r@[1]@.len() == 8);
            assert(r@[2]@.len() == 8);
            assert(r@[3]@.len() == 8);
            assert(r@[4]@.len() == 8);
            assert(r@[5]@.len() == 8);
        }
        r
    } else if c == '4' {
        proof {
            reveal_strlit("  _ _   ");
            reveal_strlit(" | | |  ");
            reveal_strlit(" |_  _| ");
            reveal_strlit("  _|_|_ ");
            reveal_strlit("_|\"\"\"\"\"|");
            reveal_strlit("\"`-0-0-'");
        }
        let r = rows6(
            "  _ _   ",
            " | | |  ",
            " |_  _| ",
            "  _|_|_ ",
            "_|\"\"\"\"\"|",
            "\"`-0-0-'",
        );
        proof {
            assert(r@[0]@.len() == 8);
            assert(r@[1]@.len() == 8);
            assert(r@[2]@.len() == 8);
            assert(r@[3]@.len() == 8);
            assert(r@[4]@.len() == 8);
            assert(r@[5]@.len() == 8);
        }
        r
    } else if c == '5' {
        proof {
            reveal_strlit("   ___  ");
            reveal_strlit("  | __| ");
            reveal_strlit("  |__ \\ ");
            reveal_strlit("  |___/ ");
            reveal_strlit("_|\"\"\"\"\"|");
            reveal_strlit("\"`-0-0-'");
        }
        let r = rows6(
            "   ___  ",
            "  | __| ",
            "  |__ \\ ",
            "  |___/ ",
            "_|\"\"\"\"\"|",
            "\"`-0-0-'",
        );
        proof {
            assert(r@[0]@.len() == 8);
            assert(r@[1]@.len() == 8);
            assert(r@[2]@.len() == 8);
            assert(r@[3]@.len() == 8);
            assert(r@[4]@.len() == 8);
            assert(r@[5]@.len() == 8);
        }
        r
    } else if c == '6' {
        proof {
            reveal_strlit("    __  ");
            reveal_strlit("   / /  ");
            reveal_strlit("  / _ \\ ");
            reveal_strlit("  \\___/ ");
            reveal_strlit("_|\"\"\"\"\"|");
            reveal_strlit("\"`-0-0-'");
        }
        let r = rows6(
            "    __  ",
            "   / /  ",
            "  / _ \\ ",
            "  \\___/ ",
            "_|\"\"\"\"\"|",
            "\"`-0-0-'",
        );
        proof {
            assert(r@[0]@.len() == 8);
            assert(r@[1]@.len() == 8);
            assert(r@[2]@.len() == 8);
            assert(r@[3]@.len() == 8);
            assert(r@[4]@.len() == 8);
            assert(r@[5]@.len() == 8);
        }
        r
    } else if c == '7' {
        proof {
            reveal_strlit("   ____ ");
            reveal_strlit("  |__  |");
            reveal_strlit("    / / ");
            reveal_strlit("  _/_/_ ");
            reveal_strlit("_|\"\"\"\"\"|");
            reveal_strlit("\"`-0-0-'");
        }
        let r = rows6(
            "   ____ ",
            "  |__  |",
            "    / / ",
            "  _/_/_ ",
            "_|\"\"\"\"\"|",
            "\"`-0-0-'",
        );
        proof {
            assert(r@[0]@.len() == 8);
            assert(r@[1]@.len() == 8);
            assert(r@[2]@.len() == 8);
            assert(r@[3]@.len() == 8);
            assert(r@[4]@.len() == 8);
            assert(r@[5]@.len() == 8);
        }
        r
    } else if c == '8' {
        proof {
            reveal_strlit("   ___  ");
            reveal_strlit("  ( _ ) ");
            reveal_strlit("  / _ \\ ");
            reveal_strlit("  \\___/ ");
            reveal_strlit("_|\"\"\"\"\"|");
            reveal_strlit("\"`-0-0-'");
        }
        let r = rows6(
            "   ___  ",
            "  ( _ ) ",
            "  / _ \\ ",
            "  \\___/ ",
            "_|\"\"\"\"\"|",
            "\"`-0-0-'",
        );
        proof {
            assert(r@[0]@.len() == 8);
            assert(r@[1]@.len() == 8);
            assert(r@[2]@.len() == 8);
            assert(r@[3]@.len() == 8);
            assert(r@[4]@.len() == 8);
            assert(r@[5]@.len() == 8);
        }
        r
    } else if c == '9' {
        proof {
            reveal_strlit("   ___  ");
            reveal_strlit("  / _ \\ ");
            reveal_strlit("  \\_, / ");
            reveal_strlit("  _/_/_ ");
            reveal_strlit("_|\"\"\"\"\"|");
            reveal_strlit("\"`-0-0-'");
        }
        let r = rows6(
            "   ___  ",
            "  / _ \\ ",
            "  \\_, / ",
            "  _/_/_ ",
            "_|\"\"\"\"\"|",
            "\"`-0-0-'",
        );
        proof {
            assert(r@[0]@.len() == 8);
            assert(r@[1]@.len() == 8);
            assert(r@[2]@.len() == 8);
            assert(r@[3]@.len() == 8);
            assert(r@[4]@.len() == 8);
            assert(r@[5]@.len() == 8);
        }
        r
    } else {
        proof {
            reveal_strlit("        ");
            reveal_strlit("        ");
            reveal_strlit("    _   ");
            reveal_strlit("  _(_)_ ");
            reveal_strlit("_|\"\"\"\"\"|");
            reveal_strlit("\"`-0-0-'");
        }
        let r = rows6(
            "        ",
            "        ",
            "    _   ",
            "  _(_)_ ",
            "_|\"\"\"\"\"|",
            "\"`-0-0-'",
        );
        proof {
            assert(r@[0]@.len() == 8);
            assert(r@[1]@.len() == 8);
            assert(r@[2]@.len() == 8);
            assert(r@[3]@.len() == 8);
            assert(r@[4]@.len() == 8);
            assert(r@[5]@.len() == 8);
        }
        r
    }
}

/// The Card font.
fn card_rows(c: char) -> (r: Vec<String>)
    requires
        drawable(c),
    ensures
        r@.len() == font_height(DigitType::Card),
        forall|i: int| 0 <= i < r@.len() ==> (#[trigger] r@[i])@.len() == row_width(
            DigitType::Card,
            c,
        ),
{
    if c == '0' {
        proof {
            reveal_strlit(".------.");
            reveal_strlit("|0.--. |");
            reveal_strlit("| :/\\: |");
            reveal_strlit("| :\\/: |");
            reveal_strlit("| '--'0|");
            reveal_strlit("`------'");
        }
        let r = rows6(
            ".------.",
            "|0.--. |",
            "| :/\\: |",
            "| :\\/: |",
            "| '--'0|",
            "`------'",
        );
        proof {
            assert(r@[0]@.len() == 8);
            assert(r@[1]@.len() == 8);
            assert(r@[2]@.len() == 8);
            assert(r@[3]@.len() == 8);
            assert(r@[4]@.len() == 8);
            assert(r@[5]@.len() == 8);
        }
        r
    } else if c == '1' {
        proof {
            reveal_strlit(".------.");
            reveal_strlit("|1.--. |");
            reveal_strlit("| :/\\: |");
            reveal_strlit("| (__) |");
            reveal_strlit("| '--'1|");
            reveal_strlit("`------'");
        }
        let r = rows6(
            ".------.",
            "|1.--. |",
            "| :/\\: |",
            "| (__) |",
            "| '--'1|",
            "`------'",
        );
        proof {
            assert(r@[0]@.len() == 8);
            assert(r@[1]@.len() == 8);
            assert(r@[2]@.len() == 8);
            assert(r@[3]@.len() == 8);
            assert(r@[4]@.len() == 8);
            assert(r@[5]@.len() == 8);
        }
        r
    } else if c == '2' {
        proof {
            reveal_strlit(".------.");
            reveal_strlit("|2.--. |");
            reveal_strlit("| (\\/) |");
            reveal_strlit("| :\\/: |");
            reveal_strlit("| '--'2|");
            reveal_strlit("`------'");
        }
        let r = rows6(
            ".------.",
            "|2.--. |",
            "| (\\/) |",
            "| :\\/: |",
            "| '--'2|",
            "`------'",
        );
        proof {
            assert(r@[0]@.len() == 8);
            assert(r@[1]@.len() == 8);
            assert(r@[2]@.len() == 8);
            assert(r@[3]@.len() == 8);
            assert(r@[4]@.len() == 8);
            assert(r@[5]@.len() == 8);
        }
        r
    } else if c == '3' {
        proof {
            reveal_strlit(".------.");
            reveal_strlit("|3.--. |");
            reveal_strlit("| :(): |");
            reveal_strlit("| ()() |");
            reveal_strlit("| '--'3|");
            reveal_strlit("`------'");
        }
        let r = rows6(
            ".------.",
            "|3.--. |",
            "| :(): |",
            "| ()() |",
            "| '--'3|",
            "`------'",
        );
        proof {
            assert(r@[0]@.len() == 8);
            assert(r@[1]@.len() == 8);
            assert(r@[2]@.len() == 8);
            assert(r@[3]@.len() == 8);
            assert(r@[4]@.len() == 8);
            assert(r@[5]@.len() == 8);
        }
        r
    } else if c == '4' {
        proof {
            reveal_strlit(".------.");
            reveal_strlit("|4.--. |");
            reveal_strlit("| :/\\: |");
            reveal_strlit("| :\\/: |");
            reveal_strlit("| '--'4|");
            reveal_strlit("`------'");
        }
        let r = rows6(
            ".------.",
            "|4.--. |",
            "| :/\\: |",
            "| :\\/: |",
            "| '--'4|",
            "`------'",
        );
        proof {
            assert(r@[0]@.len() == 8);
            assert(r@[1]@.len() == 8);
            assert(r@[2]@.len() == 8);
            assert(r@[3]@.len() == 8);
            assert(r@[4]@.len() == 8);
            assert(r@[5]@.len() == 8);
        }
        r
    } else if c == '5' {
        proof {
            reveal_strlit(".------.");
            reveal_strlit("|5.--. |");
            reveal_strlit("| :/\\: |");
            reveal_strlit("| (__) |");
            reveal_strlit("| '--'5|");
            reveal_strlit("`------'");
        }
        let r = rows6(
            ".------.",
            "|5.--. |",
            "| :/\\: |",
            "| (__) |",
            "| '--'5|",
            "`------'",
        );
        proof {
            assert(r@[0]@.len() == 8);
            assert(r@[1]@.len() == 8);
            assert(r@[2]@.len() == 8);
            assert(r@[3]@.len() == 8);
            assert(r@[4]@.len() == 8);
            assert(r@[5]@.len() == 8);
        }
        r
    } else if c == '6' {
        proof {
            reveal_strlit(".------.");
            reveal_strlit("|6.--. |");
            reveal_strlit("| (\\/) |");
            reveal_strlit("| :\\/: |");
            reveal_strlit("| '--'6|");
            reveal_strlit("`------'");
        }
        let r = rows6(
            ".------.",
            "|6.--. |",
            "| (\\/) |",
            "| :\\/: |",
            "| '--'6|",
            "`------'",
        );
        proof {
            assert(r@[0]@.len() == 8);
            assert(r@[1]@.len() == 8);
            assert(r@[2]@.len() == 8);
            assert(r@[3]@.len() == 8);
            assert(r@[4]@.len() == 8);
            assert(r@[5]@.len() == 8);
        }
        r
    } else if c == '7' {
        proof {
            reveal_strlit(".------.");
            reveal_strlit("|7.--. |");
            reveal_strlit("| :(): |");
            reveal_strlit("| ()() |");
            reveal_strlit("| '--'7|");
            reveal_strlit("`------'");
        }
        let r = rows6(
            ".------.",
            "|7.--. |",
            "| :(): |",
            "| ()() |",
            "| '--'7|",
            "`------'",
        );
        proof {
            assert(r@[0]@.len() == 8);
            assert(r@[1]@.len() == 8);
            assert(r@[2]@.len() == 8);
            assert(r@[3]@.len() == 8);
            assert(r@[4]@.len() == 8);
            assert(r@[5]@.len() == 8);
        }
        r
    } else if c == '8' {
        proof {
            reveal_strlit(".------.");
            reveal_strlit("|8.--. |");
            reveal_strlit("| :/\\: |");
            reveal_strlit("| :\\/: |");
            reveal_strlit("| '--'8|");
            reveal_strlit("`------'");
        }
        let r = rows6(
            ".------.",
            "|8.--. |",
            "| :/\\: |",
            "| :\\/: |",
            "| '--'8|",
            "`------'",
        );
        proof {
            assert(r@[0]@.len() == 8);
            assert(r@[1]@.len() == 8);
            assert(r@[2]@.len() == 8);
            assert(r@[3]@.len() == 8);
            assert(r@[4]@.len() == 8);
            assert(r@[5]@.len() == 8);
        }
        r
    } else if c == '9' {
        proof {
            reveal_strlit(".------.");
            reveal_strlit("|9.--. |");
            reveal_strlit("| :/\\: |");
            reveal_strlit("| (__) |");
            reveal_strlit("| '--'9|");
            reveal_strlit("`------'");
        }
        let r = rows6(
            ".------.",
            "|9.--. |",
            "| :/\\: |",
            "| (__) |",
            "| '--'9|",
            "`------'",
        );
        proof {
            assert(r@[0]@.len() == 8);
            assert(r@[1]@.len() == 8);
            assert(r@[2]@.len() == 8);
            assert(r@[3]@.len() == 8);
            assert(r@[4]@.len() == 8);
            assert(r@[5]@.len() == 8);
        }
        r
    } else {
        proof {
            reveal_strlit(".------.");
            reveal_strlit("|..--. |");
            reveal_strlit("| :(): |");
            reveal_strlit("| ()() |");
            reveal_strlit("| '--'.|");
            reveal_strlit("`------'");
        }
        let r = rows6(
            ".------.",
            "|..--. |",
            "| :(): |",
            "| ()() |",
            "| '--'.|",
            "`------'",
        );
        proof {
            assert(r@[0]@.len() == 8);
            assert(r@[1]@.len() == 8);
            assert(r@[2]@.len() == 8);
            assert(r@[3]@.len() == 8);
            assert(r@[4]@.len() == 8);
            assert(r@[5]@.len() == 8);
        }
        r
    }
}

} // verus!
