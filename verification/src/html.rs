use vstd::prelude::*;
use crate::ast::AstStyle;
use crate::builder::{css_text, CLIConfig, TailwindBuilder};
use crate::css::CssInlineMode;
use crate::error::TailwindError;

verus! {

/// The first position at or after `from` where the text `class="` starts,
/// if any.
fn find_class_attr(s: &str, n: usize, from: usize) -> (r: Option<usize>)
    requires
        n == s@.len(),
        from <= n,
    ensures
        r matches Some(i) ==> from <= i && i + 7 <= n && s@.subrange(i as int, i + 7)
            == "class=\""@,
    decreases n - from,
{
    if n < 7 || from > n - 7 {
        return None;
    }
    let piece = s.substring_char(from, from + 7);
    if crate::text::str_eq(piece, "class=\"") {
        return Some(from);
    }
    find_class_attr(s, n, from + 1)
}

/// The first position at or after `from` holding `"`, if any.
fn find_quote(s: &str, n: usize, from: usize) -> (r: Option<usize>)
    requires
        n == s@.len(),
        from <= n,
    ensures
        r matches Some(i) ==> from <= i && i < n && s@[i as int] == '"',
    decreases n - from,
{
    if from >= n {
        return None;
    }
    if s.get_char(from) == '"' {
        return Some(from);
    }
    find_quote(s, n, from + 1)
}

/// Splits a class attribute's text on spaces into its tokens.
fn split_tokens(s: &str) -> (r: Vec<String>) {
    let n = s.unicode_len();
    let mut out: Vec<String> = Vec::new();
    let mut i: usize = 0;
    while i < n
        invariant
            n == s@.len(),
            0 <= i <= n,
        decreases n - i,
    {
        if s.get_char(i) == ' ' {
            i += 1;
        } else {
            let mut j = i;
            while j < n && s.get_char(j) != ' '
                invariant
                    n == s@.len(),
                    i <= j <= n,
                decreases n - j,
            {
                j += 1;
            }
            out.push(s.substring_char(i, j).to_owned());
            i = j;
        }
    }
    out
}

/// What processing one class attribute's text yields: the rewritten class
/// list (failed tokens kept as written), and the inline declarations of the
/// rules that resolved.
fn process_class_text(
    text: &str,
    builder: &mut TailwindBuilder,
) -> (r: (String, String)) {
    let tokens = split_tokens(text);
    let mut names = String::new();
    let mut decls = String::new();
    let mut t: usize = 0;
    while t < tokens.len()
        invariant
            0 <= t <= tokens@.len(),
        decreases tokens@.len() - t,
    {
        let token = &tokens[t];
        let mut rewritten: Option<String> = None;
        match AstStyle::parse(token.as_str()) {
            Ok(style) => {
                let flats = style.expand();
                let mut ok = true;
                let mut flat_names = String::new();
                let mut f: usize = 0;
                while f < flats.len()
                    invariant
                        0 <= f <= flats@.len(),
                    decreases flats@.len() - f,
                {
                    match builder.trace(&flats[f]) {
                        Ok(name) => {
                            if f > 0 {
                                flat_names.append(" ");
                            }
                            flat_names.append(name.as_str());
                            let mut e: usize = 0;
                            while e < builder.bundle.entries.len()
                                invariant
                                    0 <= e <= builder.bundle.entries@.len(),
                                decreases builder.bundle.entries@.len() - e,
                            {
                                if crate::text::str_eq(
                                    builder.bundle.entries[e].output_name.as_str(),
                                    name.as_str(),
                                ) {
                                    let block = crate::builder::write_block(
                                        &builder.bundle.entries[e].attributes,
                                        builder.bundle.entries[e].important,
                                    );
                                    decls.append(block.as_str());
                                    break;
                                }
                                e += 1;
                            }
                        },
                        Err(_) => {
                            ok = false;
                        },
                    }
                    f += 1;
                }
                if ok {
                    rewritten = Some(flat_names);
                }
            },
            Err(_) => {},
        }
        if t > 0 {
            names.append(" ");
        }
        match rewritten {
            Some(s) => {
                names.append(s.as_str());
            },
            None => {
                names.append(token.as_str());
            },
        }
        t += 1;
    }
    (names, decls)
}

impl CLIConfig {
    /// Compiles one markup text: every `class="..."` attribute is read, its
    /// tokens parsed, expanded and interned, and the attribute rewritten by
    /// the configured mode; a token that fails at any stage keeps its
    /// original text and produces no rule, without aborting the pass. In
    /// every mode that keeps class attributes as written the markup comes
    /// back unchanged; the returned stylesheet is exactly the registry's
    /// rules.
    pub fn compile_html(&self, input: &str, builder: &mut TailwindBuilder) -> (r: Result<
        (String, String),
        TailwindError,
    >)
        ensures
            r matches Ok(pair) ==> pair.1@ == css_text(
                final(builder).bundle.entries@,
                final(builder).breakpoints.inner@,
            ),
            r matches Ok(pair) ==> (self.mode != CssInlineMode::Inline && self.mode
                != CssInlineMode::Scoped ==> pair.0@ == input@),
            r is Ok,
    {
        let ghost keeps = self.mode != CssInlineMode::Inline && self.mode
            != CssInlineMode::Scoped;
        let n = input.unicode_len();
        let mut html = String::new();
        let mut i: usize = 0;
        loop
            invariant_except_break
                keeps ==> html@ == input@.take(i as int),
            invariant
                n == input@.len(),
                0 <= i <= n,
                keeps == (self.mode != CssInlineMode::Inline && self.mode
                    != CssInlineMode::Scoped),
            ensures
                keeps ==> html@ == input@,
            decreases n - i,
        {
            match find_class_attr(input, n, i) {
                None => {
                    let rest = input.substring_char(i, n);
                    html.append(rest);
                    proof {
                        if keeps {
                            assert(input@.take(n as int) =~= input@);
                            assert(html@ =~= input@);
                        }
                    }
                    break;
                },
                Some(found) => {
                    match find_quote(input, n, found + 7) {
                        None => {
                            let rest = input.substring_char(i, n);
                            html.append(rest);
                            proof {
                                if keeps {
                                    assert(input@.take(n as int) =~= input@);
                                    assert(html@ =~= input@);
                                }
                            }
                            break;
                        },
                        Some(close) => {
                            let prefix = input.substring_char(i, found);
                            html.append(prefix);
                            let text = input.substring_char(found + 7, close);
                            let (names, decls) = process_class_text(text, builder);
                            match self.mode {
                                CssInlineMode::Inline => {
                                    html.append("style=\"");
                                    html.append(decls.as_str());
                                    html.append("\"");
                                },
                                CssInlineMode::Scoped => {
                                    html.append("class=\"");
                                    html.append(names.as_str());
                                    html.append("\"");
                                },
                                _ => {
                                    html.append("class=\"");
                                    let original = input.substring_char(found + 7, close);
                                    html.append(original);
                                    html.append("\"");
                                    proof {
                                        reveal_strlit("class=\"");
                                        reveal_strlit("\"");
                                        assert("\""@.len() == 1 && "\""@[0] == '"');
                                        assert(html@ =~= input@.take(close + 1));
                                    }
                                },
                            }
                            if close + 1 > n {
                                break;
                            }
                            i = close + 1;
                        },
                    }
                },
            }
        }
        let css = builder.to_css();
        Ok((html, css))
    }
}

} // verus!
