use eas_listener::embed::build_discord_embed_body;
use eas_listener::filter::{parse_filters, RawFilter};
use eas_listener::webhook::{
    build_html_body, build_markdown_body, build_plain_body, chat_webhook_address,
    embed_color_hex, embed_color_value, embed_event_code, event_title, html_escape,
    is_chat_webhook, monitor_number, notification_title, parse_notification_targets, PROJECT_URL,
};

#[test]
fn html_text_is_escaped() {
    assert_eq!(html_escape("a<b>&\"c'"), "a&lt;b&gt;&amp;&quot;c&#39;");
    assert_eq!(html_escape("plain"), "plain");
    assert_eq!(html_escape(""), "");
    assert_eq!(html_escape("&amp;"), "&amp;amp;");
}

#[test]
fn titles() {
    assert_eq!(event_title("tornado warning"), "Tornado Warning");
    assert_eq!(event_title("REQUIRED_WEEKLY_TEST"), "Required Weekly Test");
    assert_eq!(event_title("severe-thunderstorm watch"), "Severe Thunderstorm Watch");
    assert_eq!(event_title(""), "");
    assert_eq!(
        notification_title("Tornado Warning"),
        "Tornado Warning has just been issued/received"
    );
}

#[test]
fn markdown_body() {
    let body = build_markdown_body("KXYZ", "Tornado Warning", "WXR", "2024-09-01T18:30:00", "Take cover.\n\n", "ZCZC-X- ");
    assert_eq!(
        body,
        format!(
            "**KXYZ - Software ENDEC Logs**\n\n**Tornado Warning** has just been received from: WXR\n\n**Received:** 2024-09-01T18:30:00\n\n**EAS Text Data:**\n```\nTake cover.\n```\n\n**EAS Protocol Data:**\n```\nZCZC-X-\n```\n\nPowered by [Wags' Software ENDEC]({})",
            PROJECT_URL
        )
    );
}

#[test]
fn html_body() {
    let body = build_html_body("K&X", "A <b>", "WXR", "now", " x > y \n", "ZCZC-'X'-");
    assert_eq!(
        body,
        format!(
            "<p><strong>K&amp;X - Software ENDEC Logs</strong></p><p><strong>A &lt;b&gt;</strong> has just been received from: WXR</p><p><strong>Received:</strong> now</p><p><strong>EAS Text Data:</strong></p><pre> x &gt; y</pre><p><strong>EAS Protocol Data:</strong></p><pre>ZCZC-&#39;X&#39;-</pre><p>Powered by <a href=\"{}\">Wags' Software ENDEC</a></p>",
            PROJECT_URL
        )
    );
}

#[test]
fn plain_body() {
    let body = build_plain_body("KXYZ", "Tornado Warning", "WXR", "now", "Take cover.  ", "ZCZC-X-");
    assert_eq!(
        body,
        format!(
            "KXYZ - Software ENDEC Logs\n\nTornado Warning has just been received from: WXR\nReceived: now\n\nEAS Text Data:\nTake cover.\n\nEAS Protocol Data:\nZCZC-X-\n\nPowered by Wags' Software ENDEC ({})",
            PROJECT_URL
        )
    );
}

#[test]
fn embed_colours() {
    let table = [
        ("Required Weekly Test", "105733", 1070899u32),
        ("Tornado Watch", "FFFF00", 16776960),
        ("Dense Fog Advisory", "FFFF00", 16776960),
        ("Tornado Warning", "FF0000", 16711680),
        ("Civil EMERGENCY Message", "FF0000", 16711680),
        ("Test Of The Warning", "105733", 1070899),
        ("Administrative Message", "808080", 8421504),
        ("", "808080", 8421504),
    ];
    for (title, hex, value) in table {
        assert_eq!(embed_color_hex(title), hex, "{title}");
        assert_eq!(embed_color_value(title), value, "{title}");
        assert_eq!(u32::from_str_radix(hex, 16).unwrap(), value);
    }
}

#[test]
fn embed_event_codes() {
    assert_eq!(embed_event_code("ZCZC-WXR-TOR-039173+0030-2451830-KXYZ/NWS-"), "TOR");
    assert_eq!(embed_event_code("ZCZC-WXR-??W-000000+0015-2451830-R-"), "W");
    assert_eq!(embed_event_code("ZCZC-WXR-123-"), "");
    assert_eq!(embed_event_code("012345678abc"), "abc");
}

#[test]
fn monitors_are_numbered_from_one() {
    let urls = vec!["http://a".to_string(), "http://b".to_string(), "http://a".to_string()];
    assert_eq!(monitor_number(&urls, "http://a"), 1);
    assert_eq!(monitor_number(&urls, "http://b"), 2);
    assert_eq!(monitor_number(&urls, "http://c"), 999);
    assert_eq!(monitor_number(&vec![], "http://a"), 999);
}

#[test]
fn notification_targets() {
    let text = "# targets\n\n  - discord://123/abc  \nmailto://user@example.org\r\n-slack://x\n   #no\n-\n";
    assert_eq!(
        parse_notification_targets(text),
        vec!["discord://123/abc", "mailto://user@example.org", "slack://x", ""]
    );
    assert!(parse_notification_targets("").is_empty());
    assert!(parse_notification_targets("\n\n# only\n").is_empty());
    let std: Vec<String> = text
        .lines()
        .map(str::trim)
        .filter(|line| !line.is_empty() && !line.starts_with('#'))
        .map(|line| line.strip_prefix('-').map(str::trim_start).unwrap_or(line).to_owned())
        .collect();
    assert_eq!(parse_notification_targets(text), std);
}

#[test]
fn chat_targets() {
    assert!(is_chat_webhook("discord://123/abc"));
    assert!(is_chat_webhook("  discord://123/abc "));
    assert!(!is_chat_webhook("Discord://123/abc"));
    assert!(!is_chat_webhook("mailto://x"));
    assert_eq!(chat_webhook_address("discord://123/abc"), "https://discord.com/api/webhooks/123/abc");
    assert_eq!(
        chat_webhook_address(" discord://discord://123/abc "),
        "https://discord.com/api/webhooks/123/abc"
    );
    assert_eq!(chat_webhook_address("discord://"), "https://discord.com/api/webhooks/");
}

#[test]
fn the_card_for_a_tornado_warning() {
    let urls = vec!["http://radio.example/a".to_string(), "http://radio.example/b".to_string()];
    let filters = parse_filters(&vec![RawFilter {
        name: Some("Tornadoes".into()),
        event_codes: Some(vec![Some("tor".into())]),
        action: Some("relay".into()),
    }]);
    let raw = "ZCZC-WXR-TOR-039173+0030-2451830-KXYZ/NWS-";
    let e = build_discord_embed_body(
        &urls,
        &filters,
        "KXYZ",
        "http://radio.example/b",
        "Tornado Warning",
        "WXR",
        "2024-09-01T18:30:00-05:00",
        "Take cover now.\n",
        raw,
    );
    assert_eq!(e.title, "Tornado Warning has just been issued/received.");
    assert_eq!(e.color, "16711680");
    assert_eq!(e.author_name, "KXYZ - Software ENDEC Logs");
    assert_eq!(
        e.author_icon_url,
        "https://wagspuzzle.space/assets/eas-icons/index.php?code=TOR&hex=0xFF0000"
    );
    assert_eq!(e.author_url, PROJECT_URL);
    let fields: Vec<(&str, &str, bool)> =
        e.fields.iter().map(|f| (f.name.as_str(), f.value.as_str(), f.inline)).collect();
    assert_eq!(
        fields,
        vec![
            ("Received From:", "WXR", false),
            ("Received At:", "2024-09-01T18:30:00-05:00", false),
            ("Monitor", "#2", true),
            ("Filter", "Tornadoes", true),
            ("EAS Text Data:", "```\nTake cover now.\n```", false),
            ("EAS Protocol Data:", "```\nZCZC-WXR-TOR-039173+0030-2451830-KXYZ/NWS-\n```", false),
        ]
    );
    let other = build_discord_embed_body(&urls, &[], "S", "x", "Some Test", "O", "t", "", "ZCZC-WXR-??W-000000");
    assert_eq!(other.color, "1070899");
    assert_eq!(other.fields[2].value, "#999");
    assert_eq!(other.fields[3].value, "Default Filter");
    assert_eq!(
        other.author_icon_url,
        "https://wagspuzzle.space/assets/eas-icons/index.php?code=W&hex=0x105733"
    );
}
