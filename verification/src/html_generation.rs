//! Rendering a finished glyph grid as a standalone HTML page.

use vstd::prelude::*;
use vstd::string::StrSliceExecFns;
use vstd::string::StringExecFns;
use crate::chars::{dec_seq, push_decimal};
use crate::errors::AsciiError;

verus! {

/// Document head up to the background color.
pub const HTML_HEAD: &'static str = "<!DOCTYPE html>\n<html lang=\"en\">\n<head>\n    <meta charset=\"UTF-8\">\n    <meta name=\"viewport\" content=\"width=device-width, initial-scale=1.0\">\n    <title>ASCII Art Visualization</title>\n    <style>\n        body {\n            margin: 0;\n            padding: 20px;\n            background-color: #";

/// Between the background color and the text color.
pub const HTML_AFTER_BG: &'static str = ";\n            color: #";

/// Between the text color and the font family.
pub const HTML_AFTER_FG: &'static str = ";\n            font-family: ";

/// Between the font family and the base font size.
pub const HTML_AFTER_FAMILY: &'static str = ", monospace;\n            font-size: ";

/// Between the base font size and the first media-query size.
pub const HTML_AFTER_SIZE: &'static str = "px;\n            line-height: 1;\n            overflow: auto;\n        }\n        \n        .ascii-container {\n            white-space: pre;\n            letter-spacing: 0;\n            word-spacing: 0;\n            display: inline-block;\n        }\n        \n        /* Responsive scaling */\n        @media (max-width: 1200px) {\n            body { font-size: ";

/// Between the first and second media-query sizes.
pub const HTML_AFTER_MEDIA1: &'static str = "px; }\n        }\n        \n        @media (max-width: 800px) {\n            body { font-size: ";

/// Between the second and third media-query sizes.
pub const HTML_AFTER_MEDIA2: &'static str = "px; }\n        }\n        \n        @media (max-width: 600px) {\n            body { font-size: ";

/// Between the third media-query size and the escaped grid.
pub const HTML_BEFORE_CONTENT: &'static str = "px; }\n        }\n    </style>\n</head>\n<body>\n    <div class=\"ascii-container\">";

/// Between the escaped grid and the script's initial font size.
pub const HTML_AFTER_CONTENT: &'static str = "</div>\n    \n    <script>\n        let fontSize = ";

/// Between the script's initial font size and its reset size.
pub const HTML_SCRIPT_MIDDLE: &'static str = ";\n        const body = document.body;\n        \n        function updateFontSize() {\n            body.style.fontSize = fontSize + 'px';\n        }\n        \n        document.addEventListener('keydown', function(e) {\n            if (e.ctrlKey || e.metaKey) {\n                if (e.key === '+' || e.key === '=') {\n                    e.preventDefault();\n                    fontSize = Math.min(fontSize + 1, 20);\n                    updateFontSize();\n                } else if (e.key === '-') {\n                    e.preventDefault();\n                    fontSize = Math.max(fontSize - 1, 1);\n                    updateFontSize();\n                } else if (e.key === '0') {\n                    e.preventDefault();\n                    fontSize = ";

/// Everything after the reset size.
pub const HTML_TAIL: &'static str = ";\n                    updateFontSize();\n                }\n            }\n        });\n        \n        document.addEventListener('wheel', function(e) {\n            if (e.ctrlKey || e.metaKey) {\n                e.preventDefault();\n                if (e.deltaY < 0) {\n                    fontSize = Math.min(fontSize + 1, 20);\n                } else {\n                    fontSize = Math.max(fontSize - 1, 1);\n                }\n                updateFontSize();\n            }\n        });\n    </script>\n</body>\n</html>";

/// How the page presents the glyph grid.
#[derive(Debug, Clone)]
pub struct HtmlConfig {
    pub font_size: u32,
    pub background_color: String,
    pub text_color: String,
    pub font_family: String,
}

impl Default for HtmlConfig {
    /// One-pixel glyphs, white on black, in the monospace family.
    fn default() -> (r: Self)
        ensures
            r.font_size == 1,
            r.background_color@ == "000000"@,
            r.text_color@ == "ffffff"@,
            r.font_family@ == "monospace"@,
    {
        HtmlConfig {
            font_size: 1,
            background_color: String::from_str("000000"),
            text_color: String::from_str("ffffff"),
            font_family: String::from_str("monospace"),
        }
    }
}

/// What one character of HTML text becomes: `&`, `<` and `>` are replaced by
/// their entities, everything else stands as it is.
pub open spec fn escaped_char(c: char) -> Seq<char> {
    if c == '&' {
        "&amp;"@
    } else if c == '<' {
        "&lt;"@
    } else if c == '>' {
        "&gt;"@
    } else {
        seq![c]
    }
}

/// A text with every character HTML-escaped.
pub open spec fn escaped(s: Seq<char>) -> Seq<char>
    decreases s.len(),
{
    if s.len() == 0 {
        Seq::empty()
    } else {
        escaped_char(s[0]) + escaped(s.skip(1))
    }
}

/// Relies on `html_escape::encode_text`: replaces every `&`, `<` and `>`
/// with `&amp;`, `&lt;` and `&gt;`, and leaves every other character as it
/// stands.
#[verifier::external_body]
fn escape_text(s: &str) -> (r: String)
    ensures
        r@ == escaped(s@),
{
    html_escape::encode_text(s).into_owned()
}

/// A font size shrunk by `d` for a narrower viewport, but never below one
/// pixel.
pub open spec fn shrunk_size(fs: int, d: int) -> int {
    if fs - d >= 1 {
        fs - d
    } else {
        1
    }
}

/// The whole page for a non-empty glyph grid: the fixed template with the
/// colors, font family, font sizes and the escaped grid written into it.
pub open spec fn html_doc(bg: Seq<char>, fg: Seq<char>, family: Seq<char>, fs: int, content: Seq<char>) -> Seq<char> {
    HTML_HEAD@ + bg + HTML_AFTER_BG@ + fg + HTML_AFTER_FG@ + family + HTML_AFTER_FAMILY@
        + dec_seq(fs) + HTML_AFTER_SIZE@ + dec_seq(shrunk_size(fs, 1)) + HTML_AFTER_MEDIA1@
        + dec_seq(shrunk_size(fs, 2)) + HTML_AFTER_MEDIA2@ + dec_seq(shrunk_size(fs, 3))
        + HTML_BEFORE_CONTENT@ + escaped(content) + HTML_AFTER_CONTENT@ + dec_seq(fs)
        + HTML_SCRIPT_MIDDLE@ + dec_seq(fs) + HTML_TAIL@
}

/// Render a glyph grid as an HTML page under the given configuration.
/// An empty grid yields an empty document; nothing fails.
pub fn ascii_to_html(ascii_content: &str, config: HtmlConfig) -> (r: Result<String, AsciiError>)
    ensures
        match r {
            Ok(s) => if ascii_content@.len() == 0 {
                s@.len() == 0
            } else {
                s@ == html_doc(config.background_color@, config.text_color@,
                    config.font_family@, config.font_size as int, ascii_content@)
            },
            Err(_) => false,
        },
{
    if ascii_content.unicode_len() == 0 {
        return Ok(String::new());
    }
    let fs: u32 = config.font_size;
    let fs1: u32 = if fs >= 2 { fs - 1 } else { 1 };
    let fs2: u32 = if fs >= 3 { fs - 2 } else { 1 };
    let fs3: u32 = if fs >= 4 { fs - 3 } else { 1 };
    let mut out = String::from_str(HTML_HEAD);
    out.append(config.background_color.as_str());
    out.append(HTML_AFTER_BG);
    out.append(config.text_color.as_str());
    out.append(HTML_AFTER_FG);
    out.append(config.font_family.as_str());
    out.append(HTML_AFTER_FAMILY);
    push_decimal(&mut out, fs as u64);
    out.append(HTML_AFTER_SIZE);
    push_decimal(&mut out, fs1 as u64);
    out.append(HTML_AFTER_MEDIA1);
    push_decimal(&mut out, fs2 as u64);
    out.append(HTML_AFTER_MEDIA2);
    push_decimal(&mut out, fs3 as u64);
    out.append(HTML_BEFORE_CONTENT);
    let esc = escape_text(ascii_content);
    out.append(esc.as_str());
    out.append(HTML_AFTER_CONTENT);
    push_decimal(&mut out, fs as u64);
    out.append(HTML_SCRIPT_MIDDLE);
    push_decimal(&mut out, fs as u64);
    out.append(HTML_TAIL);
    Ok(out)
}

} // verus!
