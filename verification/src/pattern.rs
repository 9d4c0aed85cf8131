//! Path templates: a literal path with at most one `{name}` placeholder,
//! and the rule by which a request path matches one.

use crate::text::{
    chars_of, ends_with, extend_chars, find_char, find_from, has_prefix, has_suffix,
    lemma_position, lemma_position_unique, opt_view, position, same_chars, slice_of,
    starts_with, string_of,
};
use vstd::prelude::*;

verus! {

/// The request methods a route can be declared for.
#[derive(Debug, Clone, Copy, PartialEq, Eq, Structural)]
pub enum Verb {
    Get,
    Post,
    Put,
    Patch,
    Delete,
    Head,
    Options,
}

impl Verb {
    /// The method name as it stands in a request line.
    pub open spec fn name(self) -> Seq<char> {
        match self {
            Verb::Get => "GET"@,
            Verb::Post => "POST"@,
            Verb::Put => "PUT"@,
            Verb::Patch => "PATCH"@,
            Verb::Delete => "DELETE"@,
            Verb::Head => "HEAD"@,
            Verb::Options => "OPTIONS"@,
        }
    }

    /// The lower-case word by which a handler is annotated with this verb.
    pub open spec fn annotation(self) -> Seq<char> {
        match self {
            Verb::Get => "get"@,
            Verb::Post => "post"@,
            Verb::Put => "put"@,
            Verb::Patch => "patch"@,
            Verb::Delete => "delete"@,
            Verb::Head => "head"@,
            Verb::Options => "options"@,
        }
    }

    /// Whether a handler for this verb takes its free argument from the
    /// request body.
    pub open spec fn carries_body(self) -> bool {
        self == Verb::Post || self == Verb::Put || self == Verb::Patch
    }

    /// The method name as it stands in a request line.
    pub fn as_str(&self) -> (s: &'static str)
        ensures
            s@ == self.name(),
    {
        match self {
            Verb::Get => "GET",
            Verb::Post => "POST",
            Verb::Put => "PUT",
            Verb::Patch => "PATCH",
            Verb::Delete => "DELETE",
            Verb::Head => "HEAD",
            Verb::Options => "OPTIONS",
        }
    }

    /// Whether a handler for this verb takes its free argument from the
    /// request body.
    pub fn has_body(&self) -> (r: bool)
        ensures
            r == self.carries_body(),
    {
        match self {
            Verb::Post | Verb::Put | Verb::Patch => true,
            _ => false,
        }
    }

    /// The verb that a handler annotation names, if it names one.
    pub fn from_annotation(word: &str) -> (r: Option<Verb>)
        ensures
            r == verb_of(word@),
    {
        let w = chars_of(word);
        if same_chars(&w, &chars_of("get")) {
            Some(Verb::Get)
        } else if same_chars(&w, &chars_of("post")) {
            Some(Verb::Post)
        } else if same_chars(&w, &chars_of("put")) {
            Some(Verb::Put)
        } else if same_chars(&w, &chars_of("patch")) {
            Some(Verb::Patch)
        } else if same_chars(&w, &chars_of("delete")) {
            Some(Verb::Delete)
        } else if same_chars(&w, &chars_of("head")) {
            Some(Verb::Head)
        } else if same_chars(&w, &chars_of("options")) {
            Some(Verb::Options)
        } else {
            None
        }
    }

    /// Whether `method`, as read from a request line, is this verb.
    pub fn is_method(&self, method: &str) -> (r: bool)
        ensures
            r == (method@ == self.name()),
    {
        same_chars(&chars_of(method), &chars_of(self.as_str()))
    }
}

/// The verb that the annotation `word` names: `get` names GET, and so on
/// for the seven verbs; any other word names none.
pub open spec fn verb_of(word: Seq<char>) -> Option<Verb> {
    if word == Verb::Get.annotation() {
        Some(Verb::Get)
    } else if word == Verb::Post.annotation() {
        Some(Verb::Post)
    } else if word == Verb::Put.annotation() {
        Some(Verb::Put)
    } else if word == Verb::Patch.annotation() {
        Some(Verb::Patch)
    } else if word == Verb::Delete.annotation() {
        Some(Verb::Delete)
    } else if word == Verb::Head.annotation() {
        Some(Verb::Head)
    } else if word == Verb::Options.annotation() {
        Some(Verb::Options)
    } else {
        None
    }
}

/// Each verb's annotation names that verb.
pub proof fn lemma_verb_of_annotation(v: Verb)
    ensures
        verb_of(v.annotation()) == Some(v),
{
    lemma_verb_names_differ(v, Verb::Get);
    lemma_verb_names_differ(v, Verb::Post);
    lemma_verb_names_differ(v, Verb::Put);
    lemma_verb_names_differ(v, Verb::Patch);
    lemma_verb_names_differ(v, Verb::Delete);
    lemma_verb_names_differ(v, Verb::Head);
    lemma_verb_names_differ(v, Verb::Options);
}

/// The names of two different verbs differ.
pub proof fn lemma_verb_names_differ(a: Verb, b: Verb)
    ensures
        a.name() == b.name() ==> a == b,
        a.annotation() == b.annotation() ==> a == b,
{
    reveal_strlit("GET");
    reveal_strlit("POST");
    reveal_strlit("PUT");
    reveal_strlit("PATCH");
    reveal_strlit("DELETE");
    reveal_strlit("HEAD");
    reveal_strlit("OPTIONS");
    reveal_strlit("get");
    reveal_strlit("post");
    reveal_strlit("put");
    reveal_strlit("patch");
    reveal_strlit("delete");
    reveal_strlit("head");
    reveal_strlit("options");
    if a != b {
        assert(a.name().len() != b.name().len() || a.name()[1] != b.name()[1]);
        assert(a.annotation().len() != b.annotation().len() || a.annotation()[1]
            != b.annotation()[1]);
    }
}

/// The three parts of a template: what precedes the placeholder, the
/// placeholder's name if there is one, and what follows it.
pub struct TemplateParts {
    pub prefix: Seq<char>,
    pub param: Option<Seq<char>>,
    pub suffix: Seq<char>,
}

/// Splits a template at its first `{` and the first `}` after it. Without
/// such a pair the whole template is the prefix and there is no parameter.
pub open spec fn template_parts(t: Seq<char>) -> TemplateParts {
    let open = position(t, '{');
    let rest = t.skip(open + 1);
    let close = position(rest, '}');
    if open < t.len() && close < rest.len() {
        TemplateParts {
            prefix: t.take(open),
            param: Some(rest.take(close)),
            suffix: rest.skip(close + 1),
        }
    } else {
        TemplateParts { prefix: t, param: None, suffix: Seq::empty() }
    }
}

/// Whether the parts can come from a template: an exact pattern has no
/// suffix.
pub open spec fn parts_wf(p: TemplateParts) -> bool {
    p.param is None ==> p.suffix.len() == 0
}

/// Whether `path` matches the pattern: an exact pattern matches the path
/// equal to it; a pattern with a parameter matches a path that starts with
/// the prefix and, where the suffix is not empty, ends with the suffix.
pub open spec fn parts_match(p: TemplateParts, path: Seq<char>) -> bool {
    match p.param {
        None => path == p.prefix,
        Some(_) => starts_with(path, p.prefix) && (p.suffix.len() == 0 || ends_with(
            path,
            p.suffix,
        )),
    }
}

/// The text a matching path binds to the parameter: what lies between
/// prefix and suffix. Where the two overlap in `path` the value is empty.
pub open spec fn param_value(p: TemplateParts, path: Seq<char>) -> Seq<char> {
    let start = p.prefix.len() as int;
    let cut = path.len() - p.suffix.len();
    let end = if cut < start {
        start
    } else {
        cut
    };
    path.subrange(start, end)
}

/// The template that the parts come from: for an exact pattern the
/// prefix; else prefix, the parameter's name in braces, and suffix.
pub open spec fn template_of(p: TemplateParts) -> Seq<char> {
    match p.param {
        Some(name) => p.prefix + seq!['{'] + name + seq!['}'] + p.suffix,
        None => p.prefix,
    }
}

/// Splits a path template into prefix, parameter name and suffix.
pub fn parse_path_template(path: &str) -> (r: (String, Option<String>, String))
    ensures
        (TemplateParts { prefix: r.0@, param: opt_view(r.1), suffix: r.2@ }) == template_parts(
            path@,
        ),
{
    let t = chars_of(path);
    let n = t.len();
    let open = find_char(&t, '{');
    if open < n {
        let close = find_from(&t, open + 1, '}');
        if close < n {
            let prefix = string_of(&slice_of(&t, 0, open));
            let param = string_of(&slice_of(&t, open + 1, close));
            let suffix = string_of(&slice_of(&t, close + 1, n));
            proof {
                let rest = t@.skip(open + 1);
                assert(rest.take(close - (open + 1)) == t@.subrange(open + 1, close as int));
                assert(rest.skip(close - (open + 1) + 1) == t@.subrange(close + 1, n as int));
                assert(t@.take(open as int) == t@.subrange(0, open as int));
            }
            return (prefix, Some(param), suffix);
        }
    }
    (path.to_owned(), None, String::new())
}

/// A route's verb and parsed path template.
#[derive(Debug)]
pub struct RoutePattern {
    /// The request method the route answers.
    pub verb: Verb,
    /// The literal text before the placeholder: the whole template where
    /// there is none.
    pub prefix: String,
    /// The placeholder's name.
    pub param: Option<String>,
    /// The literal text after the placeholder.
    pub suffix: String,
}

impl RoutePattern {
    /// The parts of the path template.
    pub open spec fn parts(&self) -> TemplateParts {
        TemplateParts { prefix: self.prefix@, param: opt_view(self.param), suffix: self.suffix@ }
    }

    /// An exact pattern has no suffix.
    pub open spec fn wf(&self) -> bool {
        parts_wf(self.parts())
    }

    /// Whether a request with this method and path matches the pattern.
    pub open spec fn accepts(&self, method: Seq<char>, path: Seq<char>) -> bool {
        method == self.verb.name() && parts_match(self.parts(), path)
    }

    /// The pattern of `template` under `verb`.
    pub fn parse(verb: Verb, template: &str) -> (p: RoutePattern)
        ensures
            p.verb == verb,
            p.parts() == template_parts(template@),
            p.wf(),
    {
        let (prefix, param, suffix) = parse_path_template(template);
        RoutePattern { verb, prefix, param, suffix }
    }

    /// The template the pattern was parsed from.
    pub fn template(&self) -> (t: String)
        ensures
            t@ == template_of(self.parts()),
    {
        let mut out = chars_of(self.prefix.as_str());
        match &self.param {
            Some(name) => {
                out.push('{');
                extend_chars(&mut out, &chars_of(name.as_str()));
                out.push('}');
                extend_chars(&mut out, &chars_of(self.suffix.as_str()));
                assert(out@ =~= template_of(self.parts()));
            },
            None => {},
        }
        string_of(&out)
    }

    /// Matches `path` against the template. A match yields the text bound
    /// to the parameter, which is empty for an exact pattern.
    pub fn match_path(&self, path: &str) -> (r: Option<String>)
        ensures
            r is Some <==> parts_match(self.parts(), path@),
            r matches Some(v) ==> v@ == (if self.param is Some {
                param_value(self.parts(), path@)
            } else {
                Seq::<char>::empty()
            }),
    {
        let p = chars_of(path);
        let prefix = chars_of(self.prefix.as_str());
        match &self.param {
            None => {
                if same_chars(&p, &prefix) {
                    Some(String::new())
                } else {
                    None
                }
            },
            Some(_) => {
                let suffix = chars_of(self.suffix.as_str());
                if has_prefix(&p, &prefix) && (suffix.len() == 0 || has_suffix(&p, &suffix)) {
                    let start = prefix.len();
                    let cut = if p.len() >= suffix.len() {
                        p.len() - suffix.len()
                    } else {
                        0
                    };
                    let end = if cut < start {
                        start
                    } else {
                        cut
                    };
                    Some(string_of(&slice_of(&p, start, end)))
                } else {
                    None
                }
            },
        }
    }
}

/// A template without a placeholder matches a path if and only if the path
/// equals the template.
pub proof fn lemma_exact_template(template: Seq<char>, path: Seq<char>)
    requires
        template_parts(template).param is None,
    ensures
        parts_match(template_parts(template), path) <==> path == template,
{
}

/// A template that holds no `{` has no placeholder.
pub proof fn lemma_plain_template_is_exact(template: Seq<char>)
    requires
        !template.contains('{'),
    ensures
        template_parts(template).param is None,
        template_parts(template).prefix == template,
{
    lemma_position(template, '{');
}

/// Under a pattern with a parameter, prefix `a` and suffix `b`, the path
/// `a + x + b` matches and binds the parameter to `x`, whatever `x` is.
pub proof fn lemma_placeholder_binds(p: TemplateParts, x: Seq<char>)
    requires
        p.param is Some,
    ensures
        parts_match(p, p.prefix + x + p.suffix),
        param_value(p, p.prefix + x + p.suffix) == x,
{
    let path = p.prefix + x + p.suffix;
    assert(path.subrange(0, p.prefix.len() as int) == p.prefix);
    assert(path.subrange(path.len() - p.suffix.len(), path.len() as int) == p.suffix);
    assert(path.subrange(p.prefix.len() as int, path.len() - p.suffix.len()) == x);
}

/// A path that lacks the prefix, or lacks a suffix that is not empty, does
/// not match a pattern with a parameter.
pub proof fn lemma_placeholder_rejects(p: TemplateParts, path: Seq<char>)
    requires
        p.param is Some,
        !starts_with(path, p.prefix) || (p.suffix.len() > 0 && !ends_with(path, p.suffix)),
    ensures
        !parts_match(p, path),
{
}

/// A template is put together again from its parts. Where it has a
/// placeholder, the prefix holds no `{` and the name no `}`.
pub proof fn lemma_template_round_trip(t: Seq<char>)
    ensures
        template_of(template_parts(t)) == t,
        template_parts(t).param is Some ==> !template_parts(t).prefix.contains('{')
            && !template_parts(t).param->0.contains('}'),
{
    let open = position(t, '{');
    let rest = t.skip(open + 1);
    let close = position(rest, '}');
    lemma_position(t, '{');
    let parts = template_parts(t);
    if parts.param is Some {
        lemma_position(rest, '}');
        assert(t =~= parts.prefix + seq!['{'] + parts.param->0 + seq!['}'] + parts.suffix);
    }
}

/// The template made of a prefix without `{`, a name without `}` in
/// braces, and a suffix has exactly these three parts.
pub proof fn lemma_parts_of_template(a: Seq<char>, name: Seq<char>, b: Seq<char>)
    requires
        !a.contains('{'),
        !name.contains('}'),
    ensures
        template_parts(a + seq!['{'] + name + seq!['}'] + b) == (TemplateParts {
            prefix: a,
            param: Some(name),
            suffix: b,
        }),
{
    let t = a + seq!['{'] + name + seq!['}'] + b;
    assert forall|j: int| 0 <= j < a.len() implies t[j] != '{' by {
        assert(t[j] == a[j]);
        assert(a.contains(a[j]));
    }
    assert(t[a.len() as int] == '{');
    lemma_position_unique(t, '{', a.len() as int);
    let rest = t.skip(a.len() as int + 1);
    assert(rest =~= name + seq!['}'] + b);
    assert forall|j: int| 0 <= j < name.len() implies rest[j] != '}' by {
        assert(rest[j] == name[j]);
        assert(name.contains(name[j]));
    }
    assert(rest[name.len() as int] == '}');
    lemma_position_unique(rest, '}', name.len() as int);
    assert(t.take(a.len() as int) =~= a);
    assert(rest.take(name.len() as int) =~= name);
    assert(rest.skip(name.len() as int + 1) =~= b);
}

/// A request path made of the prefix, any text and the suffix of such a
/// template matches it and binds the parameter to that text.
pub proof fn lemma_template_binds(a: Seq<char>, name: Seq<char>, b: Seq<char>, x: Seq<char>)
    requires
        !a.contains('{'),
        !name.contains('}'),
    ensures
        parts_match(template_parts(a + seq!['{'] + name + seq!['}'] + b), a + x + b),
        param_value(template_parts(a + seq!['{'] + name + seq!['}'] + b), a + x + b) == x,
{
    lemma_parts_of_template(a, name, b);
    lemma_placeholder_binds(TemplateParts { prefix: a, param: Some(name), suffix: b }, x);
}

} // verus!
