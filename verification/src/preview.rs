//! The live preview: the page that shows the PDF and reloads it when a new
//! build is out, and how the preview server answers a request.
use vstd::prelude::*;
use crate::text::{chars_of, decimal, push_decimal_u64, starts_with, starts_with_chars, trim_start};
use crate::transform::{first_word, first_word_chars, word_prefix};

verus! {

/// The preview page: the PDF at `/pdf`, reloaded whenever the build counter
/// at `/gen` changes.
pub open spec fn preview_page() -> Seq<char> {
    "<!DOCTYPE html>\n<html>\n<head>\n  <title>md2paper preview</title>\n  <style>\n    * { margin:0; padding:0; box-sizing:border-box; }\n    body { background:#333; display:flex; flex-direction:column; height:100vh; }\n    #bar { background:#1a1a1a; color:#aaa; padding:6px 12px; font:12px monospace;\n            display:flex; justify-content:space-between; align-items:center; }\n    #status { color:#4caf50; }\n    embed { flex:1; width:100%; border:none; }\n  </style>\n</head>\n<body>\n  <div id=\"bar\">\n    <span>md2paper preview</span>\n    <span id=\"status\">loading…</span>\n  </div>\n  <embed id=\"pdf\" type=\"application/pdf\" src=\"/pdf\">\n  <script>\n    let gen = 0;\n    async function poll() {\n      try {\n        const r = await fetch('/gen');\n        const g = await r.text();\n        if (g !== String(gen)) {\n          gen = g;\n          document.getElementById('pdf').src = '/pdf?v=' + g;\n          document.getElementById('status').textContent = 'updated ' + new Date().toLocaleTimeString();\n        }\n      } catch(e) {}\n      setTimeout(poll, 800);\n    }\n    poll();\n  </script>\n</body>\n</html>"@
}

/// The HTML of the preview page.
pub fn preview_html() -> (r: String)
    ensures
        r@ == preview_page(),
{
    let mut r = String::new();
    r.append("<!DOCTYPE html>\n<html>\n<head>\n  <title>md2paper preview</title>\n  <style>\n    * { margin:0; padding:0; box-sizing:border-box; }\n    body { background:#333; display:flex; flex-direction:column; height:100vh; }\n    #bar { background:#1a1a1a; color:#aaa; padding:6px 12px; font:12px monospace;\n            display:flex; justify-content:space-between; align-items:center; }\n    #status { color:#4caf50; }\n    embed { flex:1; width:100%; border:none; }\n  </style>\n</head>\n<body>\n  <div id=\"bar\">\n    <span>md2paper preview</span>\n    <span id=\"status\">loading…</span>\n  </div>\n  <embed id=\"pdf\" type=\"application/pdf\" src=\"/pdf\">\n  <script>\n    let gen = 0;\n    async function poll() {\n      try {\n        const r = await fetch('/gen');\n        const g = await r.text();\n        if (g !== String(gen)) {\n          gen = g;\n          document.getElementById('pdf').src = '/pdf?v=' + g;\n          document.getElementById('status').textContent = 'updated ' + new Date().toLocaleTimeString();\n        }\n      } catch(e) {}\n      setTimeout(poll, 800);\n    }\n    poll();\n  </script>\n</body>\n</html>");
    r
}

/// What the preview server sends for a request.
#[derive(Debug, Clone, Copy, PartialEq, Eq, Structural)]
pub enum Route {
    /// The latest PDF.
    Pdf,
    /// The build counter.
    Gen,
    /// The preview page.
    Page,
}

/// The first line of a request: up to its first line break.
pub open spec fn first_line(s: Seq<char>) -> Seq<char>
    decreases s.len(),
{
    if s.len() == 0 || s[0] == '\n' {
        seq![]
    } else {
        seq![s[0]] + first_line(s.drop_first())
    }
}

/// The second whitespace-separated word of `s` (empty where there is none).
pub open spec fn second_word(s: Seq<char>) -> Seq<char> {
    let t = trim_start(s);
    first_word(t.skip(word_prefix(t).len() as int))
}

/// The target of a request: the second word of its first line, `/` where
/// there is none.
pub open spec fn request_target(req: Seq<char>) -> Seq<char> {
    let w = second_word(first_line(req));
    if w.len() == 0 {
        "/"@
    } else {
        w
    }
}

/// The route of a target: the PDF under `/pdf`, the counter under `/gen`,
/// the page for anything else.
pub open spec fn route_of(target: Seq<char>) -> Route {
    if starts_with(target, "/pdf"@) {
        Route::Pdf
    } else if starts_with(target, "/gen"@) {
        Route::Gen
    } else {
        Route::Page
    }
}

fn first_line_chars(v: &Vec<char>) -> (r: Vec<char>)
    ensures
        r@ == first_line(v@),
{
    let mut r: Vec<char> = Vec::new();
    let mut i: usize = 0;
    assert(v@.skip(0) =~= v@);
    assert(first_line(v@) =~= r@ + first_line(v@.skip(0)));
    while i < v.len() && v[i] != '\n'
        invariant
            i <= v@.len(),
            first_line(v@) == r@ + first_line(v@.skip(i as int)),
        decreases v@.len() - i,
    {
        assert(v@.skip(i as int)[0] == v@[i as int]);
        assert(v@.skip(i as int).drop_first() =~= v@.skip(i + 1));
        r.push(v[i]);
        i = i + 1;
    }
    if i < v.len() {
        assert(v@.skip(i as int)[0] == v@[i as int]);
    }
    assert(r@ + first_line(v@.skip(i as int)) =~= r@);
    r
}

/// Decides what the preview server answers to a request.
pub fn route_request(request: &str) -> (r: Route)
    ensures
        r == route_of(request_target(request@)),
{
    let line = first_line_chars(&chars_of(request));
    let len = line.len();
    let mut i: usize = 0;
    assert(line@.skip(0) =~= line@);
    while i < len && crate::text::is_whitespace(line[i])
        invariant
            i <= len,
            len == line@.len(),
            trim_start(line@.skip(i as int)) == trim_start(line@),
        decreases len - i,
    {
        assert(line@.skip(i as int).drop_first() =~= line@.skip(i + 1));
        i = i + 1;
    }
    assert(line@.skip(i as int).len() == 0 || !crate::text::is_ws(line@.skip(i as int)[0])) by {
        if i < len {
            assert(line@.skip(i as int)[0] == line@[i as int]);
        }
    }
    let ghost t = trim_start(line@);
    assert(t == line@.skip(i as int));
    let mut j = i;
    while j < len && !crate::text::is_whitespace(line[j])
        invariant
            i <= j <= len,
            len == line@.len(),
            t == line@.skip(i as int),
            word_prefix(t) == line@.subrange(i as int, j as int) + word_prefix(line@.skip(j as int)),
        decreases len - j,
    {
        assert(line@.skip(j as int)[0] == line@[j as int]);
        assert(line@.skip(j as int).drop_first() =~= line@.skip(j + 1));
        assert(line@.subrange(i as int, j + 1) =~= line@.subrange(i as int, j as int) + seq![line@[j as int]]);
        j = j + 1;
    }
    proof {
        if j < len {
            assert(line@.skip(j as int)[0] == line@[j as int]);
        }
        assert(word_prefix(line@.skip(j as int)) =~= Seq::<char>::empty());
        assert(word_prefix(t).len() == j - i);
        assert(t.skip(word_prefix(t).len() as int) =~= line@.skip(j as int));
    }
    let mut rest: Vec<char> = Vec::new();
    let mut k = j;
    while k < len
        invariant
            j <= k <= len,
            len == line@.len(),
            rest@ == line@.subrange(j as int, k as int),
        decreases len - k,
    {
        rest.push(line[k]);
        assert(line@.subrange(j as int, k + 1) =~= line@.subrange(j as int, k as int).push(line@[k as int]));
        k = k + 1;
    }
    assert(rest@ =~= line@.skip(j as int));
    let word = first_word_chars(&rest);
    let target = if word.len() == 0 { chars_of("/") } else { word };
    if starts_with_chars(&target, &chars_of("/pdf")) {
        Route::Pdf
    } else if starts_with_chars(&target, &chars_of("/gen")) {
        Route::Gen
    } else {
        Route::Page
    }
}

/// The head of a successful response with the given content type and
/// length, with or without a no-cache directive.
pub open spec fn response_head(content_type: Seq<char>, length: nat, no_cache: bool) -> Seq<char> {
    "HTTP/1.1 200 OK\r\nContent-Type: "@ + content_type + "\r\nContent-Length: "@ + decimal(length)
        + (if no_cache {
        "\r\nCache-Control: no-cache"@
    } else {
        seq![]
    }) + "\r\n\r\n"@
}

/// Writes the head of a successful response.
pub fn build_response_head(content_type: &str, length: u64, no_cache: bool) -> (r: String)
    ensures
        r@ == response_head(content_type@, length as nat, no_cache),
{
    let mut r = String::new();
    r.append("HTTP/1.1 200 OK\r\nContent-Type: ");
    r.append(content_type);
    r.append("\r\nContent-Length: ");
    push_decimal_u64(&mut r, length);
    if no_cache {
        r.append("\r\nCache-Control: no-cache");
    } else {
        assert(r@ + Seq::<char>::empty() =~= r@);
    }
    r.append("\r\n\r\n");
    r
}

/// The text of the build counter.
pub fn counter_text(gen: u64) -> (r: String)
    ensures
        r@ == decimal(gen as nat),
{
    let mut r = String::new();
    push_decimal_u64(&mut r, gen);
    r
}

/// What the preview serves: the latest PDF and how many builds made one.
#[derive(Debug)]
pub struct PreviewState {
    pub pdf: Vec<u8>,
    pub gen: u64,
}

impl PreviewState {
    /// No PDF yet, and no build.
    pub fn new() -> (r: Self)
        ensures
            r.pdf@.len() == 0,
            r.gen == 0,
    {
        PreviewState { pdf: Vec::new(), gen: 0 }
    }

    /// A build made `pdf`: it is served from now on, and the counter moves
    /// on by one.
    pub fn record_build(&mut self, pdf: Vec<u8>)
        requires
            old(self).gen < u64::MAX,
        ensures
            final(self).pdf@ == pdf@,
            final(self).gen == old(self).gen + 1,
    {
        self.pdf = pdf;
        self.gen = self.gen + 1;
    }
}

/// What the watcher saw.
#[derive(Debug)]
pub enum WatchEvent {
    /// A watched file was written or created.
    Changed,
    /// Some other change to a watched file.
    Unchanged,
    /// The watcher reported an error.
    Failed(String),
    /// Nothing happened for a while.
    Idle,
    /// The watcher is gone.
    Closed,
}

/// What the watch loop does next.
#[derive(Debug)]
pub enum WatchAction {
    /// Let a burst of events pass, then rebuild.
    Rebuild,
    /// Report a watcher error and go on.
    Warn(String),
    /// Wait for the next event.
    Wait,
    /// Stop watching.
    Stop,
}

/// Decides what the watch loop does with an event.
pub fn next_action(event: WatchEvent) -> (a: WatchAction)
    ensures
        match event {
            WatchEvent::Changed => a is Rebuild,
            WatchEvent::Unchanged => a is Wait,
            WatchEvent::Failed(m) => a matches WatchAction::Warn(w) && w@ == "Watch error: "@ + m@,
            WatchEvent::Idle => a is Wait,
            WatchEvent::Closed => a is Stop,
        },
{
    match event {
        WatchEvent::Changed => WatchAction::Rebuild,
        WatchEvent::Unchanged => WatchAction::Wait,
        WatchEvent::Failed(m) => {
            let mut w = String::new();
            w.append("Watch error: ");
            w.append(m.as_str());
            WatchAction::Warn(w)
        },
        WatchEvent::Idle => WatchAction::Wait,
        WatchEvent::Closed => WatchAction::Stop,
    }
}

/// The line reported after a build: success, or the error.
pub fn report_line(outcome: &Result<(), String>) -> (r: String)
    ensures
        r@ == match outcome {
            Ok(_) => "[ok] Compiled successfully"@,
            Err(e) => "[error] "@ + e@,
        },
{
    let mut r = String::new();
    match outcome {
        Ok(_) => r.append("[ok] Compiled successfully"),
        Err(e) => {
            r.append("[error] ");
            r.append(e.as_str());
        },
    }
    r
}

} // verus!
