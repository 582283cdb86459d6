//! Writing a header from the parts of a message, and what parsing it again gives.

use vstd::prelude::*;
use vstd::string::*;
use crate::commit::{CommitRecord, CommitView, FooterView, ViolationReason, footer_views, text_view};
use crate::parser::{
    Message,
    MessageView,
    header_shape,
    message_of,
    parse_spec,
    next_line,
    footer_start,
    footers_from,
    has_breaking_footer,
};
use crate::text::{
    CharClass,
    in_class,
    is_blank,
    first_in,
    is_first_in,
    lemma_first_in,
    lemma_first_in_unique,
    trim_back,
    is_trim_back,
    lemma_trim_back,
    lemma_trim_back_unique,
    trimmed,
};

verus! {

/// A header: the type, the scope in parentheses if there is one, `!` for a
/// breaking change, `: ` and the description.
pub open spec fn header_of(
    commit_type: Seq<char>,
    scope: Option<Seq<char>>,
    breaking: bool,
    description: Seq<char>,
) -> Seq<char> {
    commit_type + (match scope {
        Some(scope) => "("@ + scope + ")"@,
        None => Seq::<char>::empty(),
    }) + (if breaking {
        "!"@
    } else {
        Seq::<char>::empty()
    }) + ": "@ + description
}

/// The header of a message.
pub open spec fn header_text(m: MessageView) -> Seq<char> {
    header_of(m.commit_type, m.scope, m.breaking, m.description)
}

/// The line of a commit in a log: its hash, its header, its author.
pub open spec fn log_line(c: CommitView) -> Seq<char> {
    c.source_hash + " "@ + header_of(c.commit_type, c.scope, c.breaking, c.description) + " - "@
        + c.author
}

/// What holds of every message that parsing gives: a recognized type
/// without blanks and delimiters, a scope that is not empty and holds no `)`,
/// a description on one line that neither begins nor ends with a blank.
pub open spec fn valid_message(m: MessageView, types: Set<Seq<char>>) -> bool {
    &&& m.commit_type.len() > 0
    &&& forall|i: int|
        0 <= i < m.commit_type.len() ==> !in_class(CharClass::TypeEnd, #[trigger] m.commit_type[i])
    &&& types.contains(m.commit_type)
    &&& m.scope matches Some(scope) ==> {
        &&& scope.len() > 0
        &&& forall|i: int|
            0 <= i < scope.len() ==> !in_class(CharClass::ScopeEnd, #[trigger] scope[i])
    }
    &&& m.description.len() > 0
    &&& forall|i: int| 0 <= i < m.description.len() ==> #[trigger] m.description[i] != '\n'
    &&& !is_blank(m.description[0])
    &&& !is_blank(m.description[m.description.len() - 1])
}

/// The message with what a header cannot hold taken away: body and footers.
pub open spec fn header_only(m: MessageView) -> MessageView {
    MessageView {
        commit_type: m.commit_type,
        scope: m.scope,
        description: m.description,
        body: None,
        breaking: m.breaking,
        footers: Seq::<FooterView>::empty(),
    }
}

/// Every message that parsing accepts is valid.
pub proof fn lemma_parsed_is_valid(s: Seq<char>, types: Set<Seq<char>>)
    requires
        parse_spec(s, types) is Ok,
    ensures
        valid_message(parse_spec(s, types)->Ok_0, types),
{
    let h = header_shape(s)->0;
    let m = parse_spec(s, types)->Ok_0;
    assert(m == message_of(s, h));
    lemma_first_in(s, 0, CharClass::TypeEnd);
    lemma_first_in(s, 0, CharClass::LineEnd);
    assert forall|i: int| 0 <= i < m.commit_type.len() implies !in_class(
        CharClass::TypeEnd,
        #[trigger] m.commit_type[i],
    ) by {
        assert(m.commit_type[i] == s[i]);
    }
    if let Some((a, b)) = h.scope {
        lemma_first_in(s, a, CharClass::ScopeEnd);
        let scope = m.scope->0;
        assert forall|i: int| 0 <= i < scope.len() implies !in_class(
            CharClass::ScopeEnd,
            #[trigger] scope[i],
        ) by {
            assert(scope[i] == s[a + i]);
        }
    }
    let a = first_in(s, h.colon + 1, CharClass::Ink);
    let b = trim_back(s, a, h.line_end, CharClass::Ink);
    lemma_first_in(s, h.colon + 1, CharClass::Ink);
    lemma_trim_back(s, a, h.line_end, CharClass::Ink);
    assert(m.description == s.subrange(a, b));
    assert(a < b);
    assert(m.description[0] == s[a]);
    assert(m.description[m.description.len() - 1] == s[b - 1]);
    assert forall|i: int| 0 <= i < m.description.len() implies #[trigger] m.description[i]
        != '\n' by {
        assert(m.description[i] == s[a + i]);
    }
}

/// Writing the header of a valid message and parsing it gives the message
/// back, but for the body and the footers, which a header does not hold.
pub proof fn law_header_round_trip(m: MessageView, types: Set<Seq<char>>)
    requires
        valid_message(m, types),
    ensures
        parse_spec(header_text(m), types) == Ok::<MessageView, ViolationReason>(header_only(m)),
{
    reveal_strlit("(");
    reveal_strlit(")");
    reveal_strlit("!");
    reveal_strlit(": ");
    let s = header_text(m);
    assert(s == header_of(m.commit_type, m.scope, m.breaking, m.description));
    let ty = m.commit_type;
    let d = m.description;
    let scope_part = match m.scope {
        Some(scope) => "("@ + scope + ")"@,
        None => Seq::<char>::empty(),
    };
    let bang_part = if m.breaking {
        "!"@
    } else {
        Seq::<char>::empty()
    };
    let type_end = ty.len() as int;
    let scope_end = type_end + scope_part.len();
    let colon = scope_end + bang_part.len();
    let text_start = colon + 2;
    let n = s.len() as int;
    assert(s == ty + scope_part + bang_part + ": "@ + d);
    assert(n == text_start + d.len());
    assert forall|j: int| 0 <= j < type_end implies s[j] == ty[j] by {}
    assert forall|j: int| type_end <= j < scope_end implies s[j] == scope_part[j - type_end] by {}
    assert forall|j: int| scope_end <= j < colon implies s[j] == bang_part[j - scope_end] by {}
    assert(s[colon] == ':');
    assert(s[colon + 1] == ' ');
    assert forall|j: int| text_start <= j < n implies s[j] == d[j - text_start] by {}
    // the type ends where the first delimiter stands
    assert(in_class(CharClass::TypeEnd, s[type_end])) by {
        if m.scope is Some {
            assert(s[type_end] == scope_part[0]);
            assert(scope_part[0] == '(');
        } else if m.breaking {
            assert(s[type_end] == '!');
        } else {
            assert(s[type_end] == ':');
        }
    }
    assert(is_first_in(s, 0, CharClass::TypeEnd, type_end));
    lemma_first_in_unique(s, 0, CharClass::TypeEnd, type_end);
    assert(s.subrange(0, type_end) =~= ty);
    // the scope ends at the closing parenthesis
    if let Some(scope) = m.scope {
        let close = type_end + 1 + scope.len();
        assert(scope_end == close + 1);
        assert forall|j: int| type_end + 1 <= j < close implies !in_class(
            CharClass::ScopeEnd,
            #[trigger] s[j],
        ) by {
            assert(s[j] == scope_part[j - type_end]);
            assert(scope_part[j - type_end] == scope[j - type_end - 1]);
        }
        assert(s[close] == scope_part[close - type_end]);
        assert(scope_part[close - type_end] == ')');
        assert(is_first_in(s, type_end + 1, CharClass::ScopeEnd, close));
        lemma_first_in_unique(s, type_end + 1, CharClass::ScopeEnd, close);
        assert(s.subrange(type_end + 1, close) =~= scope);
        assert(s[type_end] == '(');
    } else {
        assert(scope_end == type_end);
        assert(s[type_end] != '(');
    }
    if m.breaking {
        assert(s[scope_end] == '!');
    } else {
        assert(s[scope_end] == ':');
    }
    // nothing in the header is a line feed
    assert forall|j: int| 0 <= j < n implies !in_class(CharClass::LineEnd, #[trigger] s[j]) by {
        if j < type_end {
            assert(s[j] == ty[j]);
        } else if j < scope_end {
            assert(s[j] == scope_part[j - type_end]);
            if let Some(scope) = m.scope {
                if type_end < j < scope_end - 1 {
                    assert(scope_part[j - type_end] == scope[j - type_end - 1]);
                }
            }
        } else if j < colon {
        } else if j < text_start {
        } else {
            assert(s[j] == d[j - text_start]);
        }
    }
    assert(is_first_in(s, 0, CharClass::LineEnd, n));
    lemma_first_in_unique(s, 0, CharClass::LineEnd, n);
    // the description begins after the space and runs to the end
    assert(s[text_start] == d[0]);
    assert(s[n - 1] == d[d.len() - 1]);
    assert(is_first_in(s, colon + 1, CharClass::Ink, text_start));
    lemma_first_in_unique(s, colon + 1, CharClass::Ink, text_start);
    assert(is_trim_back(s, text_start, n, CharClass::Ink, n));
    lemma_trim_back_unique(s, text_start, n, CharClass::Ink, n);
    assert(s.subrange(text_start, n) =~= d);
    assert(trimmed(s, colon + 1, n, CharClass::Ink) == d);
    // no line follows the header
    assert(next_line(s, 0) == n);
    assert(footers_from(s, n) =~= Seq::<FooterView>::empty());
    assert(footer_start(s, n) == n);
    assert(trimmed(s, n, n, CharClass::Text) =~= Seq::<char>::empty());
    assert(!has_breaking_footer(Seq::<FooterView>::empty()));
    let h = header_shape(s)->0;
    assert(header_shape(s) is Some);
    assert(h.type_end == type_end);
    assert(h.colon == colon);
    assert(h.line_end == n);
    assert(h.bang == m.breaking);
    assert(message_of(s, h) == header_only(m));
}

fn write_header(commit_type: &String, scope: &Option<String>, breaking: bool, description: &String)
    -> (r: String)
    ensures
        r@ == header_of(commit_type@, text_view(*scope), breaking, description@),
{
    let mut r = commit_type.clone();
    let ghost a = r@;
    match scope {
        Some(scope) => {
            r.append("(");
            r.append(scope.as_str());
            r.append(")");
            assert(r@ =~= a + ("("@ + scope@ + ")"@));
        },
        None => {
            assert(r@ =~= a + Seq::<char>::empty());
        },
    }
    let ghost b = r@;
    if breaking {
        r.append("!");
    } else {
        assert(r@ =~= b + Seq::<char>::empty());
    }
    r.append(": ");
    r.append(description.as_str());
    r
}

impl Message {
    /// The header of the message.
    pub fn header(&self) -> (r: String)
        ensures
            r@ == header_text(self@),
    {
        write_header(&self.commit_type, &self.scope, self.breaking, &self.description)
    }
}

impl CommitRecord {
    /// The line of the commit in a log.
    pub fn log_line(&self) -> (r: String)
        ensures
            r@ == log_line(self@),
    {
        let mut r = self.source_hash.clone();
        r.append(" ");
        let header = write_header(
            &self.commit_type,
            &self.scope,
            self.breaking,
            &self.description,
        );
        r.append(header.as_str());
        r.append(" - ");
        r.append(self.author.as_str());
        r
    }
}

/// The lines of the footers: for each one a line feed, the token, `: ` and the value.
pub open spec fn footers_text(fs: Seq<FooterView>) -> Seq<char>
    decreases fs.len(),
{
    if fs.len() == 0 {
        Seq::<char>::empty()
    } else {
        footers_text(fs.drop_last()) + "\n"@ + fs.last().token + ": "@ + fs.last().value
    }
}

/// The text of a whole message: the header; the body after an empty line;
/// the footers after an empty line, one on each line.
pub open spec fn message_text(m: MessageView) -> Seq<char> {
    header_text(m) + (match m.body {
        Some(body) => "\n\n"@ + body,
        None => Seq::<char>::empty(),
    }) + (if m.footers.len() > 0 {
        "\n"@ + footers_text(m.footers)
    } else {
        Seq::<char>::empty()
    })
}

impl Message {
    /// The text of the message, as it is handed to the repository.
    pub fn to_text(&self) -> (r: String)
        ensures
            r@ == message_text(self@),
    {
        let mut r = self.header();
        let ghost head = r@;
        match &self.body {
            Some(body) => {
                r.append("\n\n");
                r.append(body.as_str());
                assert(r@ =~= head + ("\n\n"@ + body@));
            },
            None => {
                assert(r@ =~= head + Seq::<char>::empty());
            },
        }
        let ghost mid = r@;
        let ghost fs = footer_views(self.footers@);
        if self.footers.len() > 0 {
            r.append("\n");
            let mut i: usize = 0;
            assert(r@ =~= mid + ("\n"@ + footers_text(fs.take(0))));
            while i < self.footers.len()
                invariant
                    i <= self.footers.len(),
                    fs == footer_views(self.footers@),
                    r@ == mid + ("\n"@ + footers_text(fs.take(i as int))),
                decreases self.footers.len() - i,
            {
                proof {
                    assert(fs.take(i + 1).drop_last() =~= fs.take(i as int));
                    assert(fs.take(i + 1).last() == self.footers@[i as int]@);
                }
                let footer = &self.footers[i];
                r.append("\n");
                r.append(footer.token.as_str());
                r.append(": ");
                r.append(footer.value.as_str());
                assert(r@ =~= mid + ("\n"@ + footers_text(fs.take(i + 1))));
                i += 1;
            }
            assert(fs.take(self.footers.len() as int) =~= fs);
        } else {
            assert(r@ =~= mid + Seq::<char>::empty());
        }
        r
    }
}

} // verus!
