//! The lines that the program prints.
//!
//! Numbers with a fraction come in as texts, formatted by the program.

use crate::events::Dialect;
use crate::loader::Descriptor;
use crate::preset::ListedPreset;
use crate::text::{append_number, text_of_opt_c};
use vstd::prelude::*;

verus! {

/// `  [3] text`, a row of a numbered list.
pub open spec fn row(i: nat, text: Seq<char>) -> Seq<char> {
    "  ["@ + crate::text::decimal(i) + "] "@ + text
}

/// One row of a numbered list.
pub fn row_line(i: usize, text: &str) -> (line: String)
    ensures
        line@ == row(i as nat, text@),
{
    let mut line = "  [".to_owned();
    append_number(&mut line, i as u64);
    line.append("] ");
    line.append(text);
    line
}

/// How many plugins a file holds.
pub fn found_line(n: u32, path: &str) -> (line: String)
    ensures
        line@ == "found "@ + crate::text::decimal(n as nat) + " plugin(s) in "@ + path@,
{
    let mut line = "found ".to_owned();
    append_number(&mut line, n as u64);
    line.append(" plugin(s) in ");
    line.append(path);
    line
}

/// The bytes of an optional C string.
pub open spec fn c_bytes(s: Option<Vec<u8>>) -> Option<Seq<u8>> {
    match s {
        Some(b) => Some(b@),
        None => None,
    }
}

/// The text of an optional C string; nothing where it is missing.
pub fn c_string(s: &Option<Vec<u8>>) -> (text: String)
    ensures
        text@ == crate::text::opt_c_text(c_bytes(*s)),
        crate::text::keeps_opt_text(c_bytes(*s), text@),
{
    match s {
        Some(b) => text_of_opt_c(Some(b.as_slice())),
        None => text_of_opt_c(None),
    }
}

/// One plugin of a file.
pub fn plugin_line(i: usize, d: &Descriptor) -> (line: String)
    ensures
        line@ == row(
            i as nat,
            crate::text::opt_c_text(c_bytes(d.name)) + "  id="@ + crate::text::opt_c_text(
                c_bytes(d.id),
            ),
        ),
{
    let mut text = c_string(&d.name);
    text.append("  id=");
    text.append(c_string(&d.id).as_str());
    row_line(i, text.as_str())
}

/// A count and what was counted, with a colon where a list follows.
pub open spec fn headline(n: nat, what: Seq<char>) -> Seq<char> {
    crate::text::decimal(n) + what + if n == 0 {
        Seq::empty()
    } else {
        ":"@
    }
}

/// The lines for a list of factory presets.
pub fn preset_lines(presets: &Vec<ListedPreset>) -> (lines: Vec<String>)
    ensures
        lines@.len() == presets@.len() + 1,
        lines@[0]@ == headline(presets@.len(), " factory preset(s)"@),
        forall|i: int|
            0 <= i < presets@.len() ==> lines@[i + 1]@ == row(
                i as nat,
                #[trigger] presets@[i].name@ + "  key="@ + presets@[i].key@,
            ),
{
    let mut lines: Vec<String> = Vec::new();
    let mut head = String::new();
    append_number(&mut head, presets.len() as u64);
    head.append(" factory preset(s)");
    if presets.len() > 0 {
        head.append(":");
    }
    assert(head@ =~= headline(presets@.len(), " factory preset(s)"@));
    lines.push(head);
    let mut i: usize = 0;
    while i < presets.len()
        invariant
            i <= presets@.len(),
            lines@.len() == i + 1,
            lines@[0]@ == headline(presets@.len(), " factory preset(s)"@),
            forall|k: int|
                0 <= k < i ==> lines@[k + 1]@ == row(
                    k as nat,
                    #[trigger] presets@[k].name@ + "  key="@ + presets@[k].key@,
                ),
        decreases presets@.len() - i,
    {
        let mut text = presets[i].name.as_str().to_owned();
        text.append("  key=");
        text.append(presets[i].key.as_str());
        lines.push(row_line(i, text.as_str()));
        i = i + 1;
    }
    lines
}

/// The lines for a list of names under a headline, such as the MIDI ports.
pub fn name_lines(names: &Vec<String>, what: &str) -> (lines: Vec<String>)
    ensures
        lines@.len() == names@.len() + 1,
        lines@[0]@ == crate::text::decimal(names@.len()) + what@ + ":"@,
        forall|i: int|
            0 <= i < names@.len() ==> lines@[i + 1]@ == row(i as nat, (#[trigger] names@[i])@),
{
    let mut lines: Vec<String> = Vec::new();
    let mut head = String::new();
    append_number(&mut head, names.len() as u64);
    head.append(what);
    head.append(":");
    assert(head@ =~= crate::text::decimal(names@.len()) + what@ + ":"@);
    lines.push(head);
    let mut i: usize = 0;
    while i < names.len()
        invariant
            i <= names@.len(),
            lines@.len() == i + 1,
            lines@[0]@ == crate::text::decimal(names@.len()) + what@ + ":"@,
            forall|k: int|
                0 <= k < i ==> lines@[k + 1]@ == row(k as nat, (#[trigger] names@[k])@),
        decreases names@.len() - i,
    {
        lines.push(row_line(i, names[i].as_str()));
        i = i + 1;
    }
    lines
}

/// What stands above the list of parameters, or in its place.
pub fn params_headline(count: usize) -> (line: String)
    ensures
        line@ == if count == 0 {
            "  (no params)"@
        } else {
            crate::text::decimal(count as nat) + " param(s):"@
        },
{
    if count == 0 {
        return "  (no params)".to_owned();
    }
    let mut line = String::new();
    append_number(&mut line, count as u64);
    line.append(" param(s):");
    assert(line@ =~= crate::text::decimal(count as nat) + " param(s):"@);
    line
}

/// How a parameter is listed: value, the plugin's own text for it, and range.
pub fn param_line(
    i: usize,
    id: u32,
    name: &str,
    value: &str,
    text: &str,
    min: &str,
    max: &str,
) -> (line: String)
    ensures
        line@ == row(
            i as nat,
            "id="@ + crate::text::decimal(id as nat) + " "@ + name@ + " = "@ + value@ + " ("@
                + text@ + ")  ["@ + min@ + ".."@ + max@ + "]"@,
        ),
{
    let mut line = "id=".to_owned();
    append_number(&mut line, id as u64);
    line.append(" ");
    line.append(name);
    line.append(" = ");
    line.append(value);
    line.append(" (");
    line.append(text);
    line.append(")  [");
    line.append(min);
    line.append("..");
    line.append(max);
    line.append("]");
    row_line(i, line.as_str())
}

/// Numbers separated by commas.
pub open spec fn comma_list(items: Seq<u32>) -> Seq<char>
    decreases items.len(),
{
    if items.len() == 0 {
        Seq::empty()
    } else if items.len() == 1 {
        crate::text::decimal(items[0] as nat)
    } else {
        comma_list(items.drop_last()) + ", "@ + crate::text::decimal(items.last() as nat)
    }
}

/// Numbers in square brackets.
pub fn list_text(items: &Vec<u32>) -> (text: String)
    ensures
        text@ == "["@ + comma_list(items@) + "]"@,
{
    let mut text = "[".to_owned();
    let ghost open = text@;
    let mut i: usize = 0;
    assert(open + comma_list(items@.take(0)) =~= open);
    while i < items.len()
        invariant
            i <= items@.len(),
            open == "["@,
            text@ == open + comma_list(items@.take(i as int)),
        decreases items@.len() - i,
    {
        let ghost before = comma_list(items@.take(i as int));
        assert(items@.take(i + 1).drop_last() =~= items@.take(i as int));
        if i > 0 {
            text.append(", ");
        }
        append_number(&mut text, items[i] as u64);
        proof {
            if i > 0 {
                assert(text@ =~= open + (before + ", "@ + crate::text::decimal(
                    items@[i as int] as nat,
                )));
            } else {
                assert(before =~= Seq::empty());
                assert(text@ =~= open + crate::text::decimal(items@[0] as nat));
            }
        }
        i = i + 1;
    }
    assert(items@.take(items@.len() as int) =~= items@);
    text.append("]");
    text
}

/// The name of a note dialect.
pub open spec fn dialect_name(d: Dialect) -> Seq<char> {
    match d {
        Dialect::Midi => "Midi"@,
        Dialect::Clap => "Clap"@,
        Dialect::Absent => "None"@,
    }
}

fn name_of_dialect(d: Dialect) -> (name: &'static str)
    ensures
        name@ == dialect_name(d),
{
    match d {
        Dialect::Midi => "Midi",
        Dialect::Clap => "Clap",
        Dialect::Absent => "None",
    }
}

/// The ports of a session on the console.
pub fn ports_line(in_ports: &Vec<u32>, out_ports: &Vec<u32>, dialect: Dialect) -> (line: String)
    ensures
        line@ == "audio ports: in ["@ + comma_list(in_ports@) + "] / out ["@ + comma_list(
            out_ports@,
        ) + "] (channels per port), note dialect "@ + dialect_name(dialect),
{
    let mut line = "audio ports: in ".to_owned();
    line.append(list_text(in_ports).as_str());
    line.append(" / out ");
    line.append(list_text(out_ports).as_str());
    line.append(" (channels per port), note dialect ");
    line.append(name_of_dialect(dialect));
    proof {
        reveal_strlit("audio ports: in ");
        reveal_strlit("audio ports: in [");
        reveal_strlit("[");
        reveal_strlit("]");
        reveal_strlit(" / out ");
        reveal_strlit("] / out [");
        reveal_strlit(" (channels per port), note dialect ");
        reveal_strlit("] (channels per port), note dialect ");
        assert("audio ports: in ["@ =~= "audio ports: in "@ + "["@);
        assert("] / out ["@ =~= "]"@ + " / out "@ + "["@);
        assert("] (channels per port), note dialect "@ =~= "]"@
            + " (channels per port), note dialect "@);
        assert(line@ =~= "audio ports: in ["@ + comma_list(in_ports@) + "] / out ["@ + comma_list(
            out_ports@,
        ) + "] (channels per port), note dialect "@ + dialect_name(dialect));
    }
    line
}

/// A running session on the console.
pub fn playing_line(sample_rate: u32, channels: u32) -> (line: String)
    ensures
        line@ == "playing at "@ + crate::text::decimal(sample_rate as nat) + " Hz, "@
            + crate::text::decimal(channels as nat) + "ch — ctrl+c to stop"@,
{
    let mut line = "playing at ".to_owned();
    append_number(&mut line, sample_rate as u64);
    line.append(" Hz, ");
    append_number(&mut line, channels as u64);
    line.append("ch — ctrl+c to stop");
    line
}

/// A running session in the window.
pub fn status_line(
    sample_rate: u32,
    channels: u32,
    in_ports: &Vec<u32>,
    out_ports: &Vec<u32>,
    dialect: Dialect,
) -> (line: String)
    ensures
        line@ == crate::text::decimal(sample_rate as nat) + " Hz · "@ + crate::text::decimal(
            channels as nat,
        ) + " ch · ports in "@ + ("["@ + comma_list(in_ports@) + "]"@) + " / out "@ + ("["@
            + comma_list(out_ports@) + "]"@) + " · notes "@ + dialect_name(dialect),
{
    let mut line = String::new();
    append_number(&mut line, sample_rate as u64);
    assert(line@ =~= crate::text::decimal(sample_rate as nat));
    line.append(" Hz · ");
    append_number(&mut line, channels as u64);
    line.append(" ch · ports in ");
    line.append(list_text(in_ports).as_str());
    line.append(" / out ");
    line.append(list_text(out_ports).as_str());
    line.append(" · notes ");
    line.append(name_of_dialect(dialect));
    line
}

/// Law: a row is its number in brackets and its text, and a headline counts what
/// follows, with a colon where something does.
pub proof fn lists_are_numbered(i: nat, text: Seq<char>, n: nat, what: Seq<char>)
    ensures
        row(i, text) == "  ["@ + crate::text::decimal(i) + "] "@ + text,
        n > 0 ==> headline(n, what) == crate::text::decimal(n) + what + ":"@,
        headline(0, what) == crate::text::decimal(0) + what,
{
    assert(headline(0, what) =~= crate::text::decimal(0) + what);
}

/// Law: numbers in a list stand one behind the other with a comma between them.
pub proof fn numbers_stand_in_a_row(items: Seq<u32>, n: u32)
    ensures
        comma_list(Seq::empty()).len() == 0,
        comma_list(seq![n]) == crate::text::decimal(n as nat),
        items.len() > 0 ==> comma_list(items.push(n)) == comma_list(items) + ", "@
            + crate::text::decimal(n as nat),
{
    assert(items.push(n).drop_last() =~= items);
}

/// Law: a dialect is shown by its name, and a C string by its bytes.
pub proof fn dialects_have_names(d: Dialect, s: Vec<u8>)
    ensures
        d is Midi ==> dialect_name(d) == "Midi"@,
        d is Clap ==> dialect_name(d) == "Clap"@,
        d is Absent ==> dialect_name(d) == "None"@,
        c_bytes(Some(s)) == Some(s@),
        c_bytes(None) is None,
{
}

} // verus!
