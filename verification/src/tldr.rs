//! Parsing a downloaded command-cheatsheet page into a command name and a
//! list of description/command example pairs. Fetching the page is the
//! front end's business; this is the pure line-by-line grammar.

use vstd::prelude::*;

use crate::text::{split, split_spec, trim, trim_spec};

verus! {

/// Mathematical image of a [`TLDRPage`].
#[verifier::ext_equal]
pub ghost struct TLDRPageView {
    pub command_name: Option<Seq<char>>,
    pub examples: Seq<(Seq<char>, Seq<char>)>,
    pub expecting_command: bool,
}

/// A parse in progress: while a command line is expected, the last example
/// already holds its description.
pub open spec fn page_wf(v: TLDRPageView) -> bool {
    v.expecting_command ==> v.examples.len() > 0
}

/// A cheatsheet page: the command's name and its examples, each a
/// description paired with a command line.
#[derive(Debug)]
pub struct TLDRPage {
    command_name: Option<String>,
    examples: Vec<(String, String)>,
    expecting_command: bool,
}

impl View for TLDRPage {
    type V = TLDRPageView;

    closed spec fn view(&self) -> TLDRPageView {
        TLDRPageView {
            command_name: match self.command_name {
                Some(ref s) => Some(s@),
                None => None,
            },
            examples: self.examples.deep_view(),
            expecting_command: self.expecting_command,
        }
    }
}

/// The parse failure: the page does not follow the cheatsheet layout.
#[derive(Debug)]
pub struct TLDRPageParseError;

impl TLDRPageParseError {
    /// What went wrong, in words.
    pub fn message(&self) -> (r: String)
        ensures
            r@ == "Fail to parse input tldr page, please check format."@,
    {
        String::from_str("Fail to parse input tldr page, please check format.")
    }
}

/// A line as the parser sees it: a trailing carriage return, left by
/// splitting CRLF text at line feeds, is dropped.
pub open spec fn line_content(p: Seq<char>) -> Seq<char> {
    if p.len() > 0 && p.last() == '\r' {
        p.drop_last()
    } else {
        p
    }
}

/// One line of a page: blank lines and `>` description lines are skipped;
/// `#` sets the command name, once; `-` opens an example with its trimmed
/// description, a trailing colon dropped; a backtick line closes the open
/// example with its command, the surrounding backticks dropped. Anything
/// else, a second `#`, a `-` inside an open example, or a backtick line
/// without one, fails.
pub open spec fn spec_parse_line(v: TLDRPageView, line: Seq<char>) -> Option<TLDRPageView> {
    if line.len() == 0 {
        Some(v)
    } else if line[0] == '#' {
        if v.command_name is Some {
            None
        } else {
            Some(
                TLDRPageView {
                    command_name: Some(trim_spec(line.subrange(1, line.len() as int))),
                    ..v
                },
            )
        }
    } else if line[0] == '>' {
        Some(v)
    } else if line[0] == '-' {
        if v.expecting_command {
            None
        } else {
            let d0 = trim_spec(line.subrange(1, line.len() as int));
            let d = if d0.len() > 0 && d0.last() == ':' {
                d0.drop_last()
            } else {
                d0
            };
            Some(
                TLDRPageView {
                    examples: v.examples.push((d, Seq::<char>::empty())),
                    expecting_command: true,
                    ..v
                },
            )
        }
    } else if line[0] == '`' {
        if !v.expecting_command {
            None
        } else {
            let inner = if line.len() >= 2 {
                line.subrange(1, line.len() - 1)
            } else {
                Seq::<char>::empty()
            };
            Some(
                TLDRPageView {
                    examples: v.examples.update(
                        v.examples.len() - 1,
                        (v.examples.last().0, trim_spec(inner)),
                    ),
                    expecting_command: false,
                    ..v
                },
            )
        }
    } else {
        None
    }
}

/// A whole page, line by line: the state after every line parsed, or
/// nothing as soon as one fails.
pub open spec fn spec_parse_lines(v: TLDRPageView, lines: Seq<Seq<char>>) -> Option<TLDRPageView>
    decreases lines.len(),
{
    if lines.len() == 0 {
        Some(v)
    } else {
        match spec_parse_lines(v, lines.drop_last()) {
            None => None,
            Some(v1) => spec_parse_line(v1, line_content(lines.last())),
        }
    }
}

/// Once some prefix of the lines fails to parse, the whole page fails.
proof fn lemma_parse_prefix_none(v: TLDRPageView, lines: Seq<Seq<char>>, n: int)
    requires
        0 <= n <= lines.len(),
        spec_parse_lines(v, lines.take(n)) is None,
    ensures
        spec_parse_lines(v, lines) is None,
    decreases lines.len(),
{
    if n < lines.len() {
        assert(lines.drop_last().take(n) =~~= lines.take(n));
        lemma_parse_prefix_none(v, lines.drop_last(), n);
    } else {
        assert(lines.take(n) =~~= lines);
    }
}

impl TLDRPage {
    /// An empty page: no command name, no examples.
    pub fn new() -> (r: TLDRPage)
        ensures
            r@.command_name is None,
            r@.examples == Seq::<(Seq<char>, Seq<char>)>::empty(),
            r@.expecting_command == false,
            page_wf(r@),
    {
        let r = TLDRPage { command_name: None, examples: Vec::new(), expecting_command: false };
        proof {
            assert(r@.examples =~~= Seq::<(Seq<char>, Seq<char>)>::empty());
        }
        r
    }

    /// Consumes one line of the page.
    fn parse_line(&mut self, line: &str) -> (r: Result<(), TLDRPageParseError>)
        requires
            page_wf(old(self)@),
        ensures
            page_wf(final(self)@),
            match spec_parse_line(old(self)@, line@) {
                Some(v) => r is Ok && final(self)@ == v,
                None => r is Err && final(self)@ == old(self)@,
            },
    {
        let line_len = line.unicode_len();
        if line_len == 0 {
            return Ok(());
        }
        let c0 = line.get_char(0);
        if c0 == '#' {
            if self.command_name.is_some() {
                return Err(TLDRPageParseError);
            }
            let rest = line.substring_char(1, line_len);
            self.command_name = Some(trim(rest));
            proof {
                assert(self@ =~~= spec_parse_line(old(self)@, line@)->Some_0);
            }
            Ok(())
        } else if c0 == '>' {
            Ok(())
        } else if c0 == '-' {
            if self.expecting_command {
                return Err(TLDRPageParseError);
            }
            let rest = line.substring_char(1, line_len);
            let trimmed = trim(rest);
            let trimmed_len = trimmed.as_str().unicode_len();
            let desc: String = if trimmed_len > 0 && trimmed.as_str().get_char(trimmed_len - 1)
                == ':' {
                let shorter = trimmed.as_str().substring_char(0, trimmed_len - 1);
                proof {
                    assert(trimmed@.subrange(0, trimmed@.len() - 1) =~= trimmed@.drop_last());
                }
                shorter.to_owned()
            } else {
                trimmed
            };
            let ghost dv_old = self.examples.deep_view();
            self.examples.push((desc, String::new()));
            self.expecting_command = true;
            proof {
                assert(self.examples.deep_view() =~~= dv_old.push((desc@, Seq::<char>::empty())));
                assert(self@ =~~= spec_parse_line(old(self)@, line@)->Some_0);
            }
            Ok(())
        } else if c0 == '`' {
            if !self.expecting_command {
                return Err(TLDRPageParseError);
            }
            let inner: String = if line_len >= 2 {
                let mid = line.substring_char(1, line_len - 1);
                mid.to_owned()
            } else {
                String::new()
            };
            let command = trim(inner.as_str());
            let n = self.examples.len();
            let ghost dv_old = self.examples.deep_view();
            let ghost vec_old = self.examples@;
            proof {
                assert forall|k: int| 0 <= k < vec_old.len() implies #[trigger] dv_old[k]
                    == vec_old[k].deep_view() by {}
            }
            let last_example = self.examples.remove(n - 1);
            let closed_example = (last_example.0, command);
            self.examples.insert(n - 1, closed_example);
            self.expecting_command = false;
            proof {
                assert(self.examples@ =~= vec_old.update(n - 1, closed_example));
                assert(self.examples.deep_view() =~~= dv_old.update(
                    n - 1,
                    (dv_old[n - 1].0, command@),
                ));
                assert(dv_old.last() == dv_old[n - 1]);
                assert(self@ =~~= spec_parse_line(old(self)@, line@)->Some_0);
            }
            Ok(())
        } else {
            Err(TLDRPageParseError)
        }
    }

    /// Consumes a whole page body, line by line, stopping at the first
    /// line that does not fit the layout.
    pub fn parse(&mut self, page_body: &str) -> (r: Result<(), TLDRPageParseError>)
        requires
            page_wf(old(self)@),
        ensures
            page_wf(final(self)@),
            (r is Ok <==> spec_parse_lines(old(self)@, split_spec(page_body@, '\n')) is Some),
            r is Ok ==> Some(final(self)@) == spec_parse_lines(
                old(self)@,
                split_spec(page_body@, '\n'),
            ),
    {
        let pieces = split(page_body, '\n');
        let ghost pv = pieces.deep_view();
        let mut i: usize = 0;
        proof {
            assert(pv.take(0) =~= Seq::<Seq<char>>::empty());
        }
        while i < pieces.len()
            invariant
                page_wf(self@),
                pv == pieces.deep_view(),
                pv == split_spec(page_body@, '\n'),
                pv.len() == pieces.len(),
                i <= pieces.len(),
                spec_parse_lines(old(self)@, pv.take(i as int)) == Some(self@),
            decreases pieces.len() - i,
        {
            proof {
                assert(pv[i as int] == pieces@[i as int]@);
                assert(pv.take(i + 1).drop_last() =~= pv.take(i as int));
                assert(pv.take(i + 1).last() == pv[i as int]);
            }
            let raw = &pieces[i];
            let raw_len = raw.as_str().unicode_len();
            let line: String = if raw_len > 0 && raw.as_str().get_char(raw_len - 1) == '\r' {
                proof {
                    assert(raw@.subrange(0, raw@.len() - 1) =~= raw@.drop_last());
                }
                raw.as_str().substring_char(0, raw_len - 1).to_owned()
            } else {
                raw.clone()
            };
            assert(line@ == line_content(pv[i as int]));
            if let Err(e) = self.parse_line(line.as_str()) {
                proof {
                    assert(spec_parse_lines(old(self)@, pv.take(i + 1)) is None);
                    lemma_parse_prefix_none(old(self)@, pv, i + 1);
                }
                return Err(e);
            }
            i = i + 1;
        }
        proof {
            assert(pv.take(pv.len() as int) =~= pv);
        }
        // Completeness — a command name present, no example left open —
        // is checked but not enforced: a partial page still parses.
        let _complete = self.validate();
        Ok(())
    }

    /// Whether the parsed page is complete: it has a command name and no
    /// example is left waiting for its command line.
    fn validate(&self) -> (r: bool)
        ensures
            r == (self@.command_name is Some && !self@.expecting_command),
    {
        if self.command_name.is_none() {
            return false;
        }
        if self.expecting_command {
            return false;
        }
        true
    }

    /// The parsed examples: description and command pairs, in page order.
    pub fn get_examples(&self) -> (r: &Vec<(String, String)>)
        ensures
            r.deep_view() == self@.examples,
    {
        &self.examples
    }

    /// The parsed command name.
    pub fn get_command_name(&self) -> (r: &str)
        requires
            self@.command_name is Some,
        ensures
            r@ == self@.command_name->Some_0,
    {
        match &self.command_name {
            Some(command_name) => command_name.as_str(),
            None => { unreached() },
        }
    }
}

/// Parses a page body into a fresh page.
pub fn parse_page(page_body: &str) -> (r: Result<TLDRPage, TLDRPageParseError>)
    ensures
        ({
            let parsed = spec_parse_lines(
                TLDRPageView {
                    command_name: None::<Seq<char>>,
                    examples: Seq::<(Seq<char>, Seq<char>)>::empty(),
                    expecting_command: false,
                },
                split_spec(page_body@, '\n'),
            );
            match r {
                Ok(page) => parsed is Some && page@ == parsed->Some_0,
                Err(_) => parsed is None,
            }
        }),
{
    let mut tldr_page = TLDRPage::new();
    proof {
        assert(tldr_page@ =~~= TLDRPageView {
            command_name: None::<Seq<char>>,
            examples: Seq::<(Seq<char>, Seq<char>)>::empty(),
            expecting_command: false,
        });
    }
    if let Err(tldr_page_parse_err) = tldr_page.parse(page_body) {
        return Err(tldr_page_parse_err);
    }
    Ok(tldr_page)
}

} // verus!
