//! The LM Studio translation provider: its endpoint, the chat request it
//! sends, and how it reads the reply.

use vstd::prelude::*;
use crate::json::{Json, JsonView, json_parse, json_pretty, parse_json, pretty_json};
use crate::text::{
    append_str, chars_of, contains_seq, contains_str, is_blank, is_blank_str, replace_all,
    replace_chars, slice_chars, string_of, strip_controls, strip_trailing, strip_trailing_chars,
    without_controls,
};

verus! {

/// The settings the translation providers and commands read.
pub struct Config {
    pub hotkey: String,
    pub target_language: String,
    pub model: String,
    pub custom_prompt: String,
    pub lm_studio_url: Option<String>,
    pub floating_on_hotkey: bool,
    pub minimize_to_tray: bool,
    pub auto_start: bool,
}

/// A finished translation.
pub struct TranslationResult {
    pub detected_language: String,
    pub translated_text: String,
    pub target_language: String,
}

/// The chat completion request sent to LM Studio.
pub struct ChatRequest {
    pub model: String,
    pub system_prompt: String,
    pub user_prompt: String,
    pub max_tokens: u32,
    /// The sampling temperature in tenths.
    pub temperature_tenths: u32,
    /// Whether the request asks for alternative translations, whose reply is
    /// handed back raw.
    pub alternatives: bool,
}

/// Translation through a local LM Studio server (an OpenAI-compatible API,
/// by default at http://127.0.0.1:1234, without authentication).
pub struct LmStudioTranslationService {
    config: Config,
}

/// The server address used when none, or a blank one, is configured.
pub open spec fn default_base() -> Seq<char> {
    "http://127.0.0.1:1234"@
}

/// The server address: the configured one unless it is missing or blank.
pub open spec fn server_base(url: Option<String>) -> Seq<char> {
    match url {
        Some(u) => if is_blank(u@) { default_base() } else { u@ },
        None => default_base(),
    }
}

/// The formatting rules appended to the system prompt of a plain translation.
pub open spec fn formatting_rules() -> Seq<char> {
    "\n\nIMPORTANT FORMATTING RULES:\n- Always respond with valid JSON containing 'detected_language' and 'translated_text' fields\n- Preserve line breaks and paragraph structure in the translation\n- Use actual newline characters in the JSON string value\n\nExample response format:\n{\n  \"detected_language\": \"English\",\n  \"translated_text\": \"Line 1\\nLine 2\"\n}"@
}

/// Whether a configuration asks for alternative translations.
pub open spec fn wants_alternatives(config: Config) -> bool {
    contains_seq(config.custom_prompt@, "alternatives"@)
}

/// The index of the first `c` in `s`.
pub open spec fn first_index(s: Seq<char>, c: char) -> Option<int>
    decreases s.len(),
{
    if s.len() == 0 {
        None
    } else if s[0] == c {
        Some(0)
    } else {
        match first_index(s.drop_first(), c) {
            Some(i) => Some(i + 1),
            None => None,
        }
    }
}

/// Scanning `s` from `i` with `depth` open braces: the index just past the
/// brace that brings the count back to zero.
pub open spec fn brace_end(s: Seq<char>, i: int, depth: int) -> Option<int>
    decreases s.len() - i,
{
    if i < 0 || i >= s.len() {
        None
    } else if s[i] == '{' {
        brace_end(s, i + 1, depth + 1)
    } else if s[i] == '}' {
        if depth - 1 == 0 {
            Some(i + 1)
        } else {
            brace_end(s, i + 1, depth - 1)
        }
    } else {
        brace_end(s, i + 1, depth)
    }
}

/// The first balanced `{...}` block of `s`, starting at its first `{`.
pub open spec fn embedded_object(s: Seq<char>) -> Option<Seq<char>> {
    match first_index(s, '{') {
        Some(start) => match brace_end(s, start, 0) {
            Some(end) => Some(s.subrange(start, end)),
            None => None,
        },
        None => None,
    }
}

/// The count of `{` in `s` less the count of `}`.
pub open spec fn brace_balance(s: Seq<char>) -> int
    decreases s.len(),
{
    if s.len() == 0 {
        0
    } else {
        brace_balance(s.drop_last()) + if s.last() == '{' {
            1int
        } else if s.last() == '}' {
            -1int
        } else {
            0int
        }
    }
}

/// Whether `o` is one `{...}` block: it opens with `{`, closes every brace it
/// opens by its end, and has no brace left open only at its end.
pub open spec fn is_brace_block(o: Seq<char>) -> bool {
    &&& o.len() > 0
    &&& o[0] == '{'
    &&& brace_balance(o) == 0
    &&& forall|j: int| 1 <= j < o.len() ==> brace_balance(#[trigger] o.take(j)) > 0
}

/// The document a cleaned reply holds: the whole text as JSON, else its first
/// balanced `{...}` block as JSON; `None` where neither parses.
pub open spec fn reply_document(cleaned: Seq<char>) -> Option<JsonView> {
    match json_parse(cleaned) {
        Some(doc) => Some(doc),
        None => match embedded_object(cleaned) {
            Some(block) => json_parse(block),
            None => None,
        },
    }
}

/// Turns the escape sequences `\n`, `\r\n`, `\r` and `\t` written out in a
/// model's text into the characters they stand for, in that order of passes.
pub open spec fn unescape(s: Seq<char>) -> Seq<char> {
    replace_all(
        replace_all(replace_all(replace_all(s, "\\n"@, "\n"@), "\\r\\n"@, "\n"@), "\\r"@, "\n"@),
        "\\t"@,
        "\t"@,
    )
}

/// The language a reply reports: its non-empty `detected_language`, else "unknown".
pub open spec fn reply_language(doc: Option<JsonView>) -> Seq<char> {
    match doc {
        Some(d) => match d.str_member("detected_language"@) {
            Some(l) => if l.len() > 0 { l } else { "unknown"@ },
            None => "unknown"@,
        },
        None => "unknown"@,
    }
}

/// The translation a reply carries: its `translated_text`, else the document
/// itself where it is a string, else "translation failed"; where no document
/// parses, the whole cleaned reply. Escape sequences are turned into characters.
pub open spec fn reply_text(doc: Option<JsonView>, cleaned: Seq<char>) -> Seq<char> {
    match doc {
        Some(d) => match d.str_member("translated_text"@) {
            Some(t) => unescape(t),
            None => match d.str_spec() {
                Some(t) => unescape(t),
                None => "translation failed"@,
            },
        },
        None => unescape(cleaned),
    }
}

/// What the reply of a chat request leads to: the content of the first
/// choice's message, or the message of the error.
pub open spec fn first_choice_content(response: JsonView) -> Option<Seq<char>> {
    match response.get_spec("choices"@) {
        Some(c) => match c.array_spec() {
            Some(items) => if items.len() > 0 {
                match items[0].get_spec("message"@) {
                    Some(m) => m.str_member("content"@),
                    None => None,
                }
            } else {
                None
            },
            None => None,
        },
        None => None,
    }
}

/// Whether the reply holds an array under "choices".
pub open spec fn has_choices(response: JsonView) -> bool {
    match response.get_spec("choices"@) {
        Some(c) => c.array_spec() is Some,
        None => false,
    }
}

/// Whether that array is empty.
pub open spec fn choices_empty(response: JsonView) -> bool {
    match response.get_spec("choices"@) {
        Some(c) => match c.array_spec() {
            Some(items) => items.len() == 0,
            None => false,
        },
        None => false,
    }
}

/// The document an optional reference points to.
pub open spec fn deref_doc(doc: Option<&Json>) -> Option<JsonView> {
    match doc {
        Some(d) => Some(d@),
        None => None,
    }
}

/// Copies a string.
fn copy_string(s: &String) -> (r: String)
    ensures
        r@ == s@,
{
    let v = chars_of(s.as_str());
    string_of(&v)
}

/// A string holding a string slice.
fn owned(s: &str) -> (r: String)
    ensures
        r@ == s@,
{
    let v = chars_of(s);
    string_of(&v)
}

/// The index of the first `c` in `v`.
fn find_char(v: &Vec<char>, c: char) -> (r: Option<usize>)
    ensures
        match r {
            Some(i) => first_index(v@, c) == Some(i as int) && i < v.len() && v@[i as int] == c,
            None => first_index(v@, c) is None,
        },
{
    let mut i: usize = 0;
    while i < v.len()
        invariant
            i <= v.len(),
            forall|k: int| 0 <= k < i ==> v@[k] != c,
        decreases v.len() - i,
    {
        if v[i] == c {
            proof {
                lemma_first_index(v@, c, i as int);
            }
            return Some(i);
        }
        i = i + 1;
    }
    proof {
        lemma_no_index(v@, c);
    }
    None
}

proof fn lemma_first_index(s: Seq<char>, c: char, i: int)
    requires
        0 <= i < s.len(),
        s[i] == c,
        forall|k: int| 0 <= k < i ==> s[k] != c,
    ensures
        first_index(s, c) == Some(i),
    decreases i,
{
    if i > 0 {
        lemma_first_index(s.drop_first(), c, i - 1);
    }
}

proof fn lemma_no_index(s: Seq<char>, c: char)
    requires
        forall|k: int| 0 <= k < s.len() ==> s[k] != c,
    ensures
        first_index(s, c) is None,
    decreases s.len(),
{
    if s.len() > 0 {
        lemma_no_index(s.drop_first(), c);
    }
}

/// The first balanced `{...}` block of `v`.
fn find_embedded_object(v: &Vec<char>) -> (r: Option<Vec<char>>)
    ensures
        match r {
            Some(b) => embedded_object(v@) == Some(b@),
            None => embedded_object(v@) is None,
        },
{
    let start = match find_char(v, '{') {
        Some(s) => s,
        None => return None,
    };
    let mut depth: usize = 0;
    let mut i: usize = start;
    while i < v.len()
        invariant
            start <= i <= v.len(),
            start < v.len(),
            v@[start as int] == '{',
            first_index(v@, '{') == Some(start as int),
            (i == start && depth == 0) || (i > start && depth >= 1),
            depth <= i - start,
            brace_end(v@, start as int, 0) == brace_end(v@, i as int, depth as int),
        decreases v.len() - i,
    {
        let c = v[i];
        if c == '{' {
            depth = depth + 1;
        } else if c == '}' {
            if depth == 1 {
                let block = slice_chars(v, start, i + 1);
                return Some(block);
            }
            depth = depth - 1;
        }
        i = i + 1;
    }
    None
}

/// The whole text of a reply, the text of its first `{...}` block, or nothing,
/// as a document.
fn read_reply_document(cleaned: &String) -> (r: Option<Json>)
    ensures
        match r {
            Some(doc) => reply_document(cleaned@) == Some(doc@),
            None => reply_document(cleaned@) is None,
        },
{
    match parse_json(cleaned.as_str()) {
        Some(doc) => Some(doc),
        None => {
            let v = chars_of(cleaned.as_str());
            match find_embedded_object(&v) {
                Some(block) => {
                    let text = string_of(&block);
                    parse_json(text.as_str())
                },
                None => None,
            }
        },
    }
}

/// Turns written-out escape sequences into the characters they stand for.
fn unescape_text(s: &str) -> (r: String)
    ensures
        r@ == unescape(s@),
{
    proof {
        reveal_strlit("\\n");
        reveal_strlit("\\r\\n");
        reveal_strlit("\\r");
        reveal_strlit("\\t");
    }
    let v = chars_of(s);
    let a = replace_chars(&v, "\\n", "\n");
    let b = replace_chars(&a, "\\r\\n", "\n");
    let c = replace_chars(&b, "\\r", "\n");
    let d = replace_chars(&c, "\\t", "\t");
    string_of(&d)
}

impl LmStudioTranslationService {
    /// The configuration the service was made with.
    pub closed spec fn settings(&self) -> Config {
        self.config
    }

    /// A service for the given configuration.
    pub fn new(config: Config) -> (r: Self)
        ensures
            r.settings() == config,
    {
        LmStudioTranslationService { config }
    }

    /// The address of the chat completions endpoint: the server address
    /// without trailing slashes, followed by `/v1/chat/completions`.
    pub fn chat_completions_url(&self) -> (r: String)
        ensures
            r@ == strip_trailing(server_base(self.settings().lm_studio_url), '/') + "/v1/chat/completions"@,
            match self.settings().lm_studio_url {
                Some(u) => if is_blank(u@) {
                    r@ == "http://127.0.0.1:1234/v1/chat/completions"@
                } else {
                    r@ == strip_trailing(u@, '/') + "/v1/chat/completions"@
                },
                None => r@ == "http://127.0.0.1:1234/v1/chat/completions"@,
            },
    {
        proof {
            if self.config.lm_studio_url is None || is_blank(self.config.lm_studio_url->0@) {
                law_default_chat_endpoint(self.config.lm_studio_url);
            }
        }
        let base = match &self.config.lm_studio_url {
            Some(u) => if is_blank_str(u.as_str()) {
                chars_of("http://127.0.0.1:1234")
            } else {
                chars_of(u.as_str())
            },
            None => chars_of("http://127.0.0.1:1234"),
        };
        let mut url = strip_trailing_chars(&base, '/');
        append_str(&mut url, "/v1/chat/completions");
        string_of(&url)
    }

    /// Reads the content of a model's reply: control characters other than line
    /// feed, carriage return and tab are dropped, the rest is read as JSON (or
    /// its first `{...}` block is), and the detected language and the
    /// translation are taken from it; the target language is the configured one.
    pub fn parse_response_content(&self, content: &str) -> (r: Result<TranslationResult, String>)
        ensures
            r matches Ok(t) && {
                let cleaned = without_controls(content@);
                let doc = reply_document(cleaned);
                &&& t.detected_language@ == reply_language(doc)
                &&& t.translated_text@ == reply_text(doc, cleaned)
                &&& t.target_language@ == self.settings().target_language@
            },
    {
        let v = chars_of(content);
        let cleaned_chars = strip_controls(&v);
        let cleaned = string_of(&cleaned_chars);
        let doc = read_reply_document(&cleaned);
        let doc_ref: Option<&Json> = match &doc {
            Some(d) => Some(d),
            None => None,
        };
        Ok(self.translation_from_reply(doc_ref, cleaned.as_str()))
    }

    /// The translation a cleaned reply carries, given the document read from
    /// it (`None` where neither the reply nor its first `{...}` block parses).
    pub fn translation_from_reply(&self, doc: Option<&Json>, cleaned: &str) -> (t: TranslationResult)
        ensures
            t.detected_language@ == reply_language(deref_doc(doc)),
            t.translated_text@ == reply_text(deref_doc(doc), cleaned@),
            t.target_language@ == self.settings().target_language@,
    {
        let detected_language = match doc {
            Some(d) => match d.get_str("detected_language") {
                Some(lang) => if lang.is_empty() { owned("unknown") } else { owned(lang) },
                None => owned("unknown"),
            },
            None => owned("unknown"),
        };
        let translated_text = match doc {
            Some(d) => match d.get_str("translated_text") {
                Some(text) => unescape_text(text),
                None => match d.as_str() {
                    Some(text) => unescape_text(text),
                    None => owned("translation failed"),
                },
            },
            None => unescape_text(cleaned),
        };
        TranslationResult {
            detected_language,
            translated_text,
            target_language: copy_string(&self.config.target_language),
        }
    }

    /// The chat request for a text, given the text as cleaned for translation
    /// and the system prompt built for this configuration. A blank model is
    /// refused. Where the custom prompt mentions "alternatives", the text is
    /// sent quoted under the custom prompt; otherwise it is sent with the
    /// target language under the given prompt and the formatting rules.
    pub fn chat_request(&self, cleaned_text: &str, smart_prompt: &str) -> (r: Result<ChatRequest, String>)
        ensures
            is_blank(self.settings().model@) <==> r is Err,
            r matches Err(e) ==> e@ == "Model not configured for LM Studio provider"@,
            r matches Ok(q) ==> {
                &&& q.model@ == self.settings().model@
                &&& q.max_tokens == 800
                &&& q.temperature_tenths == 3
                &&& q.alternatives == wants_alternatives(self.settings())
                &&& q.alternatives <==> contains_seq(self.settings().custom_prompt@, "alternatives"@)
                &&& if q.alternatives {
                    &&& q.user_prompt@ == "\""@ + cleaned_text@ + "\""@
                    &&& q.system_prompt@ == self.settings().custom_prompt@
                } else {
                    &&& q.user_prompt@ == "Text to translate into "@ + self.settings().target_language@
                        + ": \""@ + cleaned_text@ + "\""@
                    &&& q.system_prompt@ == smart_prompt@ + formatting_rules()
                }
            },
    {
        if is_blank_str(self.config.model.as_str()) {
            return Err(owned("Model not configured for LM Studio provider"));
        }
        let alternatives = contains_str(self.config.custom_prompt.as_str(), "alternatives");
        let mut user: Vec<char> = Vec::new();
        let system: String;
        if alternatives {
            append_str(&mut user, "\"");
            append_str(&mut user, cleaned_text);
            append_str(&mut user, "\"");
            system = copy_string(&self.config.custom_prompt);
        } else {
            append_str(&mut user, "Text to translate into ");
            append_str(&mut user, self.config.target_language.as_str());
            append_str(&mut user, ": \"");
            append_str(&mut user, cleaned_text);
            append_str(&mut user, "\"");
            let mut sys = chars_of(smart_prompt);
            append_str(&mut sys, "\n\nIMPORTANT FORMATTING RULES:\n- Always respond with valid JSON containing 'detected_language' and 'translated_text' fields\n- Preserve line breaks and paragraph structure in the translation\n- Use actual newline characters in the JSON string value\n\nExample response format:\n{\n  \"detected_language\": \"English\",\n  \"translated_text\": \"Line 1\\nLine 2\"\n}");
            system = string_of(&sys);
        }
        Ok(ChatRequest {
            model: copy_string(&self.config.model),
            system_prompt: system,
            user_prompt: string_of(&user),
            max_tokens: 800,
            temperature_tenths: 3,
            alternatives,
        })
    }

    /// Reads the reply to a chat request: the content of the first choice's
    /// message, handed back raw for an alternatives request and read by
    /// `parse_response_content` otherwise.
    pub fn read_chat_response(&self, response: &Json, alternatives: bool) -> (r: Result<TranslationResult, String>)
        ensures
            !has_choices(response@) ==> (r matches Err(e) && e@
                == "No 'choices' array in LM Studio response. Full response: "@ + json_pretty(response@)),
            has_choices(response@) && choices_empty(response@) ==> (r matches Err(e) && e@
                == "Empty 'choices' array in LM Studio response"@),
            has_choices(response@) && !choices_empty(response@) && first_choice_content(response@) is None
                ==> (r matches Err(e) && e@ == "No 'content' field in LM Studio message"@),
            r is Ok <==> first_choice_content(response@) is Some,
            r matches Ok(t) ==> (alternatives ==> {
                &&& t.detected_language@ == "unknown"@
                &&& t.translated_text@ == first_choice_content(response@)->0
                &&& t.target_language@ == "alternatives"@
            }),
            r matches Ok(t) ==> (!alternatives ==> {
                let cleaned = without_controls(first_choice_content(response@)->0);
                let doc = reply_document(cleaned);
                &&& t.detected_language@ == reply_language(doc)
                &&& t.translated_text@ == reply_text(doc, cleaned)
                &&& t.target_language@ == self.settings().target_language@
            }),
    {
        let items = match response.get("choices") {
            Some(c) => match c.as_array() {
                Some(items) => items,
                None => return Err(self.no_choices_message(response)),
            },
            None => return Err(self.no_choices_message(response)),
        };
        if items.len() == 0 {
            return Err(owned("Empty 'choices' array in LM Studio response"));
        }
        let content = match items[0].get("message") {
            Some(m) => match m.get_str("content") {
                Some(c) => c,
                None => return Err(owned("No 'content' field in LM Studio message")),
            },
            None => return Err(owned("No 'content' field in LM Studio message")),
        };
        if alternatives {
            Ok(TranslationResult {
                detected_language: owned("unknown"),
                translated_text: owned(content),
                target_language: owned("alternatives"),
            })
        } else {
            self.parse_response_content(content)
        }
    }

    /// The message for a reply without a "choices" array.
    fn no_choices_message(&self, response: &Json) -> (r: String)
        ensures
            r@ == "No 'choices' array in LM Studio response. Full response: "@ + json_pretty(response@),
    {
        let mut v = chars_of("No 'choices' array in LM Studio response. Full response: ");
        let pretty = pretty_json(response);
        append_str(&mut v, pretty.as_str());
        string_of(&v)
    }
}

proof fn lemma_replace_absent(s: Seq<char>, pat: Seq<char>, rep: Seq<char>)
    requires
        pat.len() > 0,
        !s.contains(pat[0]),
    ensures
        replace_all(s, pat, rep) == s,
    decreases s.len(),
{
    if s.len() > 0 {
        assert(s[0] != pat[0]);
        if pat.len() <= s.len() {
            assert(s.take(pat.len() as int)[0] != pat[0]);
        }
        assert forall|c: char| s.drop_first().contains(c) implies s.contains(c) by {
            let k = choose|k: int| 0 <= k < s.drop_first().len() && s.drop_first()[k] == c;
            assert(s[k + 1] == c);
        }
        lemma_replace_absent(s.drop_first(), pat, rep);
        assert(seq![s[0]] + s.drop_first() =~= s);
    }
}

/// Scanning a block `o` that stands in `s` at `start`: after its first `k`
/// characters the open brace count is their brace balance.
proof fn lemma_brace_scan(s: Seq<char>, start: int, o: Seq<char>, k: int)
    requires
        0 <= start,
        start + o.len() <= s.len(),
        s.subrange(start, start + o.len()) == o,
        is_brace_block(o),
        0 <= k < o.len(),
    ensures
        brace_end(s, start, 0) == brace_end(s, start + k, brace_balance(o.take(k))),
    decreases k,
{
    if k == 0 {
        assert(o.take(0).len() == 0);
    } else {
        lemma_brace_scan(s, start, o, k - 1);
        let c = o[k - 1];
        assert(s[start + k - 1] == s.subrange(start, start + o.len())[k - 1]);
        assert(s[start + k - 1] == c);
        assert(o.take(k).drop_last() =~= o.take(k - 1));
        assert(o.take(k).last() == c);
        assert(brace_balance(o.take(k)) > 0);
    }
}

/// The block read from a reply is its first balanced `{...}` block: for a
/// reply made of a text without `{`, a block `o` whose braces are all closed
/// by its end and not before, and anything after it, the block read is `o`,
/// whatever follows it.
pub proof fn law_first_block_is_read(p: Seq<char>, o: Seq<char>, r: Seq<char>)
    requires
        !p.contains('{'),
        is_brace_block(o),
    ensures
        embedded_object(p + o + r) == Some(o),
{
    let s = p + o + r;
    let start = p.len() as int;
    let n = o.len() as int;
    assert(s.subrange(start, start + n) =~= o);
    assert forall|k: int| 0 <= k < start implies s[k] != '{' by {
        if s[k] == '{' {
            assert(p[k] == '{');
        }
    }
    assert(s[start] == o[0]);
    lemma_first_index(s, '{', start);
    lemma_brace_scan(s, start, o, n - 1);
    assert(o.take(n) =~= o);
    assert(o.drop_last() =~= o.take(n - 1));
    let d = brace_balance(o.take(n - 1));
    if n == 1 {
        assert(o.take(0).len() == 0);
        assert(brace_balance(o) == 1);
    } else {
        assert(d > 0);
    }
    assert(o.last() == '}' && d == 1);
    assert(s[start + n - 1] == o[n - 1]);
    assert(brace_end(s, start + n - 1, d) == Some(start + n));
}

proof fn lemma_first_index_found(s: Seq<char>, c: char)
    requires
        first_index(s, c) is Some,
    ensures
        0 <= first_index(s, c)->0 < s.len(),
        s[first_index(s, c)->0] == c,
        forall|k: int| 0 <= k < first_index(s, c)->0 ==> s[k] != c,
    decreases s.len(),
{
    if s[0] != c {
        lemma_first_index_found(s.drop_first(), c);
        let i = first_index(s.drop_first(), c)->0;
        assert forall|k: int| 0 <= k < i + 1 implies s[k] != c by {
            if k > 0 {
                assert(s[k] == s.drop_first()[k - 1]);
            }
        }
    }
}

/// Scanning from `i` with the brace balance of `s[start..i]` open, every
/// prefix of it past `start` having a brace open: where the scan ends, it
/// ends a block.
proof fn lemma_brace_end_block(s: Seq<char>, start: int, i: int, end: int)
    requires
        0 <= start < i,
        s[start] == '{',
        forall|j: int| start < j <= i ==> brace_balance(#[trigger] s.subrange(start, j)) > 0,
        brace_end(s, i, brace_balance(s.subrange(start, i))) == Some(end),
    ensures
        i < end <= s.len(),
        is_brace_block(s.subrange(start, end)),
    decreases s.len() - i,
{
    let d = brace_balance(s.subrange(start, i));
    assert(i < s.len());
    let c = s[i];
    assert(s.subrange(start, i + 1).drop_last() =~= s.subrange(start, i));
    assert(s.subrange(start, i + 1).last() == c);
    if c == '}' && d - 1 == 0 {
        let b = s.subrange(start, i + 1);
        assert(end == i + 1);
        assert forall|j: int| 1 <= j < b.len() implies brace_balance(#[trigger] b.take(j)) > 0 by {
            assert(b.take(j) =~= s.subrange(start, start + j));
        }
    } else {
        assert(d > 0);
        assert(brace_balance(s.subrange(start, i + 1)) > 0);
        lemma_brace_end_block(s, start, i + 1, end);
    }
}

/// What is read from a reply as its block is a balanced `{...}` block that
/// begins at the reply's first `{`: no `{` stands before it.
pub proof fn law_read_block_is_balanced(s: Seq<char>)
    ensures
        embedded_object(s) matches Some(b) ==> {
            &&& is_brace_block(b)
            &&& exists|k: int| 0 <= k && k + b.len() <= s.len() && !(#[trigger] s.take(k)).contains('{')
                && s.subrange(k, k + b.len()) == b
        },
{
    if embedded_object(s) is Some {
        lemma_first_index_found(s, '{');
        let start = first_index(s, '{')->0;
        let end = brace_end(s, start, 0)->0;
        assert(brace_end(s, start, 0) == brace_end(s, start + 1, 1));
        let first = s.subrange(start, start + 1);
        assert(first.drop_last() =~= Seq::<char>::empty());
        assert(brace_balance(first.drop_last()) == 0);
        assert(first.last() == '{');
        assert(brace_balance(first) == 1);
        lemma_brace_end_block(s, start, start + 1, end);
        let b = s.subrange(start, end);
        assert(b.len() == end - start);
        assert(!s.take(start).contains('{')) by {
            if s.take(start).contains('{') {
                let k = choose|k: int| 0 <= k < s.take(start).len() && s.take(start)[k] == '{';
                assert(s[k] == '{');
            }
        }
        assert(s.subrange(start, start + b.len()) == b);
    }
}

/// Text without backslashes comes through the unescaping unchanged: only
/// the written-out sequences `\n`, `\r\n`, `\r` and `\t` are rewritten.
pub proof fn law_unescape_keeps_plain_text(s: Seq<char>)
    requires
        !s.contains('\\'),
    ensures
        unescape(s) == s,
{
    reveal_strlit("\\n");
    reveal_strlit("\\r\\n");
    reveal_strlit("\\r");
    reveal_strlit("\\t");
    lemma_replace_absent(s, "\\n"@, "\n"@);
    lemma_replace_absent(s, "\\r\\n"@, "\n"@);
    lemma_replace_absent(s, "\\r"@, "\n"@);
    lemma_replace_absent(s, "\\t"@, "\t"@);
}

/// A reply that is a JSON object with a non-empty `detected_language` and a
/// `translated_text` without backslashes is read as exactly those two texts.
pub proof fn law_plain_json_reply(content: Seq<char>, doc: JsonView, language: Seq<char>, text: Seq<char>)
    requires
        json_parse(without_controls(content)) == Some(doc),
        doc.str_member("detected_language"@) == Some(language),
        language.len() > 0,
        doc.str_member("translated_text"@) == Some(text),
        !text.contains('\\'),
    ensures
        reply_language(reply_document(without_controls(content))) == language,
        reply_text(reply_document(without_controls(content)), without_controls(content)) == text,
{
    law_unescape_keeps_plain_text(text);
}

/// The language a reply reports is never empty: a missing or empty
/// `detected_language` is reported as "unknown".
pub proof fn law_language_never_empty(doc: Option<JsonView>)
    ensures
        reply_language(doc).len() > 0,
        reply_language(doc) == "unknown"@ || reply_language(doc) == doc->0.str_member("detected_language"@)->0,
{
    reveal_strlit("unknown");
}

/// A trailing slash on a configured server address does not change the chat
/// completions endpoint.
pub proof fn law_server_trailing_slash(url: Seq<char>)
    requires
        !is_blank(url),
    ensures
        strip_trailing(url.push('/'), '/') == strip_trailing(url, '/'),
{
    assert(url.push('/').drop_last() =~= url);
}

/// Without a configured server address, or with a blank one (the empty text
/// among them), the chat completions endpoint is the one of the default
/// local server, http://127.0.0.1:1234/v1/chat/completions.
pub proof fn law_default_chat_endpoint(url: Option<String>)
    requires
        match url {
            Some(u) => is_blank(u@),
            None => true,
        },
    ensures
        strip_trailing(server_base(url), '/') + "/v1/chat/completions"@
            == "http://127.0.0.1:1234/v1/chat/completions"@,
{
    reveal_strlit("http://127.0.0.1:1234");
    reveal_strlit("/v1/chat/completions");
    reveal_strlit("http://127.0.0.1:1234/v1/chat/completions");
    assert(server_base(url) == default_base());
    assert(default_base().last() == '4');
    assert(strip_trailing(default_base(), '/') == default_base());
    assert(default_base() + "/v1/chat/completions"@ =~= "http://127.0.0.1:1234/v1/chat/completions"@);
}

/// A request asks for alternative translations exactly when the custom prompt
/// holds the word "alternatives" somewhere: some twelve consecutive
/// characters of it spell it.
pub proof fn law_alternatives_when_mentioned(config: Config)
    ensures
        wants_alternatives(config) <==> exists|i: int|
            0 <= i && i + 12 <= config.custom_prompt@.len()
                && #[trigger] config.custom_prompt@.subrange(i, i + 12) == "alternatives"@,
{
    reveal_strlit("alternatives");
    let c = config.custom_prompt@;
    if wants_alternatives(config) {
        let i = choose|i: int| 0 <= i <= c.len() - 12 && #[trigger] c.skip(i).take(12) == "alternatives"@;
        assert(c.subrange(i, i + 12) =~= c.skip(i).take(12));
    }
    if exists|i: int| 0 <= i && i + 12 <= c.len() && #[trigger] c.subrange(i, i + 12) == "alternatives"@ {
        let i = choose|i: int| 0 <= i && i + 12 <= c.len() && #[trigger] c.subrange(i, i + 12) == "alternatives"@;
        assert(c.subrange(i, i + 12) =~= c.skip(i).take(12));
        assert(contains_seq(c, "alternatives"@));
    }
}

/// What an answer of the LM Studio server leads to: a successful answer's body
/// read as JSON (a body that is not JSON is a decoding error), or, for a
/// failed status, an error naming the status and the body.
pub fn read_chat_reply(success: bool, status: &str, body: &str) -> (r: Result<Json, String>)
    ensures
        success && json_parse(body@) is Some ==> (r matches Ok(doc) && doc@ == json_parse(body@)->0),
        success && json_parse(body@) is None ==> (r matches Err(e) && e@ == "error decoding response body"@),
        !success ==> (r matches Err(e) && e@ == "LM Studio API request failed ("@ + status@ + "): "@ + body@),
{
    if success {
        match parse_json(body) {
            Some(doc) => Ok(doc),
            None => Err(owned("error decoding response body")),
        }
    } else {
        let mut v = chars_of("LM Studio API request failed (");
        append_str(&mut v, status);
        append_str(&mut v, "): ");
        append_str(&mut v, body);
        Err(string_of(&v))
    }
}

} // verus!
