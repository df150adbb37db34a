//! The card that a chat webhook shows for an alert: a title, a colour, the
//! station as author, and six fields.

use crate::filter::{determine_filter_name, filter_name_of, rules_view, FilterRule, RuleModel};
use crate::text::{
    chars_of, decimal, decimal_chars, extend_chars, extend_str, string_of, trim_back,
    trim_ws_back, views,
};
use crate::webhook::{
    embed_color_hex, embed_color_value, embed_event_code, embed_hex, embed_value, letters_of,
    monitor_number, monitor_of, PROJECT_URL,
};
use vstd::prelude::*;

verus! {

/// One field of the card.
#[derive(Debug, Clone)]
pub struct EmbedField {
    pub name: String,
    pub value: String,
    pub inline: bool,
}

/// The card.
#[derive(Debug, Clone)]
pub struct Embed {
    pub title: String,
    pub color: String,
    pub author_name: String,
    pub author_icon_url: String,
    pub author_url: String,
    pub fields: Vec<EmbedField>,
}

/// The model of a field.
pub struct FieldModel {
    pub name: Seq<char>,
    pub value: Seq<char>,
    pub inline: bool,
}

/// The model of the card.
pub struct EmbedModel {
    pub title: Seq<char>,
    pub color: Seq<char>,
    pub author_name: Seq<char>,
    pub author_icon_url: Seq<char>,
    pub author_url: Seq<char>,
    pub fields: Seq<FieldModel>,
}

impl View for EmbedField {
    type V = FieldModel;

    open spec fn view(&self) -> FieldModel {
        FieldModel { name: self.name@, value: self.value@, inline: self.inline }
    }
}

impl View for Embed {
    type V = EmbedModel;

    open spec fn view(&self) -> EmbedModel {
        EmbedModel {
            title: self.title@,
            color: self.color@,
            author_name: self.author_name@,
            author_icon_url: self.author_icon_url@,
            author_url: self.author_url@,
            fields: self.fields@.map_values(|f: EmbedField| f@),
        }
    }
}

/// A text set off as a block of code, without white space at its end.
pub open spec fn fenced(text: Seq<char>) -> Seq<char> {
    "```\n"@ + trim_back(text) + "\n```"@
}

/// The address of the picture for an event code in a colour.
pub open spec fn icon_address(code: Seq<char>, hex: Seq<char>) -> Seq<char> {
    "https://wagspuzzle.space/assets/eas-icons/index.php?code="@ + code + "&hex=0x"@ + hex
}

/// The card for an alert.
pub open spec fn embed_of(
    stream_urls: Seq<Seq<char>>,
    filters: Seq<RuleModel>,
    station: Seq<char>,
    stream_id: Seq<char>,
    title: Seq<char>,
    originator: Seq<char>,
    received: Seq<char>,
    eas_text: Seq<char>,
    raw_header: Seq<char>,
) -> EmbedModel {
    let code = letters_of(raw_header.subrange(9, 12));
    EmbedModel {
        title: title + " has just been issued/received."@,
        color: decimal(embed_value(title) as nat),
        author_name: station + " - Software ENDEC Logs"@,
        author_icon_url: icon_address(code, embed_hex(title)),
        author_url: PROJECT_URL@,
        fields: seq![
            FieldModel { name: "Received From:"@, value: originator, inline: false },
            FieldModel { name: "Received At:"@, value: received, inline: false },
            FieldModel {
                name: "Monitor"@,
                value: "#"@ + decimal(monitor_of(stream_urls, stream_id)),
                inline: true,
            },
            FieldModel { name: "Filter"@, value: filter_name_of(filters, code), inline: true },
            FieldModel { name: "EAS Text Data:"@, value: fenced(eas_text), inline: false },
            FieldModel { name: "EAS Protocol Data:"@, value: fenced(raw_header), inline: false },
        ],
    }
}

/// A field with a name given in the program text.
fn field(name: &str, value: String, inline: bool) -> (f: EmbedField)
    ensures
        f@ == (FieldModel { name: name@, value: value@, inline }),
{
    EmbedField { name: name.to_owned(), value, inline }
}

/// A text set off as a block of code.
fn fence(text: &str) -> (r: String)
    ensures
        r@ == fenced(text@),
{
    let v = chars_of(text);
    let t = trim_ws_back(&v);
    let mut out: Vec<char> = Vec::new();
    extend_str(&mut out, "```\n");
    extend_chars(&mut out, &t);
    extend_str(&mut out, "\n```");
    assert(out@ =~= fenced(text@));
    string_of(&out)
}

/// Two texts, one after the other.
fn joined(a: &str, b: &str) -> (r: String)
    ensures
        r@ == a@ + b@,
{
    let mut out: Vec<char> = Vec::new();
    extend_str(&mut out, a);
    extend_str(&mut out, b);
    assert(out@ =~= a@ + b@);
    string_of(&out)
}

/// The card for an alert that was heard on `stream_id`. The raw header
/// must be long enough to carry an event code.
pub fn build_discord_embed_body(
    stream_urls: &Vec<String>,
    filters: &[FilterRule],
    station_name: &str,
    stream_id: &str,
    title: &str,
    originator: &str,
    received_timestamp: &str,
    eas_text: &str,
    raw_header: &str,
) -> (embed: Embed)
    requires
        raw_header@.len() >= 12,
    ensures
        embed@ == embed_of(
            views(stream_urls@),
            rules_view(filters@),
            station_name@,
            stream_id@,
            title@,
            originator@,
            received_timestamp@,
            eas_text@,
            raw_header@,
        ),
{
    let code = embed_event_code(raw_header);
    let hex = embed_color_hex(title);
    let monitor = monitor_number(stream_urls, stream_id);
    let filter_name = determine_filter_name(filters, code.as_str());

    let color_digits = decimal_chars(embed_color_value(title) as u64);
    let color = string_of(&color_digits);

    let mut icon: Vec<char> = Vec::new();
    extend_str(&mut icon, "https://wagspuzzle.space/assets/eas-icons/index.php?code=");
    extend_str(&mut icon, code.as_str());
    extend_str(&mut icon, "&hex=0x");
    extend_str(&mut icon, hex.as_str());
    assert(icon@ =~= icon_address(code@, hex@));

    let mut monitor_text: Vec<char> = Vec::new();
    extend_str(&mut monitor_text, "#");
    let monitor_digits = decimal_chars(monitor as u64);
    extend_chars(&mut monitor_text, &monitor_digits);
    assert(monitor_text@ =~= "#"@ + decimal(monitor as nat));

    let mut fields: Vec<EmbedField> = Vec::new();
    fields.push(field("Received From:", originator.to_owned(), false));
    fields.push(field("Received At:", received_timestamp.to_owned(), false));
    fields.push(field("Monitor", string_of(&monitor_text), true));
    fields.push(field("Filter", filter_name, true));
    fields.push(field("EAS Text Data:", fence(eas_text), false));
    fields.push(field("EAS Protocol Data:", fence(raw_header), false));

    let embed = Embed {
        title: joined(title, " has just been issued/received."),
        color,
        author_name: joined(station_name, " - Software ENDEC Logs"),
        author_icon_url: string_of(&icon),
        author_url: PROJECT_URL.to_owned(),
        fields,
    };
    assert(embed@.fields =~= embed_of(
        views(stream_urls@),
        rules_view(filters@),
        station_name@,
        stream_id@,
        title@,
        originator@,
        received_timestamp@,
        eas_text@,
        raw_header@,
    ).fields);
    embed
}

} // verus!
