//! Correlation tokens: the state of an edit workflow carried inside a UI
//! control's identifier, as colon-separated fields.

use crate::text::{
    chars_of, is_digit, lemma_nat_text, nat_text, parse_u64,
    parse_u64_spec, push_char, push_decimal, text_eq,
};
use crate::resolve::views;
use vstd::prelude::*;

verus! {

/// One step of the item-edit workflow, as a control carries it.
pub enum CorrelationToken {
    /// The user asked to edit a record: the field choice comes next.
    EditItem { project_id: String, number: u64 },
    /// A field choice for the record is on screen.
    FieldChoice { project_id: String, number: u64 },
    /// The option choice for a selection-typed field is on screen.
    ValueChoice { project_id: String, number: u64, field_id: String },
    /// The text entry for a free-form field is on screen.
    ValueEntry { project_id: String, number: u64, field_id: String },
}

pub enum TokenView {
    EditItem { project_id: Seq<char>, number: u64 },
    FieldChoice { project_id: Seq<char>, number: u64 },
    ValueChoice { project_id: Seq<char>, number: u64, field_id: Seq<char> },
    ValueEntry { project_id: Seq<char>, number: u64, field_id: Seq<char> },
}

impl View for CorrelationToken {
    type V = TokenView;

    open spec fn view(&self) -> TokenView {
        match self {
            CorrelationToken::EditItem { project_id, number } => TokenView::EditItem {
                project_id: project_id@,
                number: *number,
            },
            CorrelationToken::FieldChoice { project_id, number } => TokenView::FieldChoice {
                project_id: project_id@,
                number: *number,
            },
            CorrelationToken::ValueChoice { project_id, number, field_id } =>
                TokenView::ValueChoice {
                project_id: project_id@,
                number: *number,
                field_id: field_id@,
            },
            CorrelationToken::ValueEntry { project_id, number, field_id } => TokenView::ValueEntry {
                project_id: project_id@,
                number: *number,
                field_id: field_id@,
            },
        }
    }
}

pub open spec fn colon_free(s: Seq<char>) -> bool {
    forall|i: int| 0 <= i < s.len() ==> s[i] != ':'
}

/// The identifiers of the token hold no separator.
pub open spec fn token_valid(t: TokenView) -> bool {
    match t {
        TokenView::EditItem { project_id, .. } => colon_free(project_id),
        TokenView::FieldChoice { project_id, .. } => colon_free(project_id),
        TokenView::ValueChoice { project_id, field_id, .. } => colon_free(project_id) && colon_free(
            field_id,
        ),
        TokenView::ValueEntry { project_id, field_id, .. } => colon_free(project_id) && colon_free(
            field_id,
        ),
    }
}

/// The fields of the encoded form, in order.
pub open spec fn token_parts(t: TokenView) -> Seq<Seq<char>> {
    match t {
        TokenView::EditItem { project_id, number } => seq![
            "edit"@,
            "item"@,
            project_id,
            nat_text(number as nat),
        ],
        TokenView::FieldChoice { project_id, number } => seq![
            "field"@,
            "sel"@,
            project_id,
            nat_text(number as nat),
        ],
        TokenView::ValueChoice { project_id, number, field_id } => seq![
            "val"@,
            "sel"@,
            project_id,
            nat_text(number as nat),
            field_id,
        ],
        TokenView::ValueEntry { project_id, number, field_id } => seq![
            "val"@,
            "modal"@,
            project_id,
            nat_text(number as nat),
            field_id,
        ],
    }
}

/// The fields joined by `:`.
pub open spec fn join_colon(parts: Seq<Seq<char>>) -> Seq<char>
    decreases parts.len(),
{
    if parts.len() == 0 {
        Seq::empty()
    } else if parts.len() == 1 {
        parts[0]
    } else {
        join_colon(parts.drop_last()) + seq![':'] + parts.last()
    }
}

/// The text split at each `:`; always at least one field.
pub open spec fn split_colon(s: Seq<char>) -> Seq<Seq<char>>
    decreases s.len(),
{
    if s.len() == 0 {
        seq![Seq::empty()]
    } else {
        let p = split_colon(s.drop_last());
        if s.last() == ':' {
            p.push(Seq::empty())
        } else {
            p.update(p.len() - 1, p.last().push(s.last()))
        }
    }
}

pub open spec fn encode_spec(t: TokenView) -> Seq<char> {
    join_colon(token_parts(t))
}

/// The token whose encoded fields these are, if any.
pub open spec fn decode_parts(ps: Seq<Seq<char>>) -> Option<TokenView> {
    if ps.len() == 4 && ps[0] == "edit"@ && ps[1] == "item"@ && parse_u64_spec(ps[3]) is Some {
        Some(TokenView::EditItem { project_id: ps[2], number: parse_u64_spec(ps[3])->0 })
    } else if ps.len() == 4 && ps[0] == "field"@ && ps[1] == "sel"@ && parse_u64_spec(ps[3]) is Some {
        Some(TokenView::FieldChoice { project_id: ps[2], number: parse_u64_spec(ps[3])->0 })
    } else if ps.len() == 5 && ps[0] == "val"@ && ps[1] == "sel"@ && parse_u64_spec(ps[3]) is Some {
        Some(
            TokenView::ValueChoice {
                project_id: ps[2],
                number: parse_u64_spec(ps[3])->0,
                field_id: ps[4],
            },
        )
    } else if ps.len() == 5 && ps[0] == "val"@ && ps[1] == "modal"@ && parse_u64_spec(ps[3]) is Some {
        Some(
            TokenView::ValueEntry {
                project_id: ps[2],
                number: parse_u64_spec(ps[3])->0,
                field_id: ps[4],
            },
        )
    } else {
        None
    }
}

pub open spec fn decode_spec(s: Seq<char>) -> Option<TokenView> {
    decode_parts(split_colon(s))
}

proof fn lemma_split_len(s: Seq<char>)
    ensures
        split_colon(s).len() >= 1,
    decreases s.len(),
{
    if s.len() > 0 {
        lemma_split_len(s.drop_last());
    }
}

proof fn lemma_split_append_free(a: Seq<char>, b: Seq<char>)
    requires
        colon_free(b),
    ensures
        split_colon(a + b) == split_colon(a).update(
            split_colon(a).len() - 1,
            split_colon(a).last() + b,
        ),
    decreases b.len(),
{
    lemma_split_len(a);
    if b.len() == 0 {
        assert(a + b =~= a);
        assert(split_colon(a).last() + b =~= split_colon(a).last());
        assert(split_colon(a).update(split_colon(a).len() - 1, split_colon(a).last())
            =~= split_colon(a));
    } else {
        let b0 = b.drop_last();
        assert(colon_free(b0));
        lemma_split_append_free(a, b0);
        assert((a + b).drop_last() =~= a + b0);
        assert((a + b).last() == b.last());
        lemma_split_len(a + b0);
        let p = split_colon(a + b0);
        assert(p.last() == split_colon(a).last() + b0);
        assert(p.last().push(b.last()) =~= split_colon(a).last() + b);
        assert(p.update(p.len() - 1, p.last().push(b.last())) =~= split_colon(a).update(
            split_colon(a).len() - 1,
            split_colon(a).last() + b,
        ));
    }
}

proof fn lemma_split_join(parts: Seq<Seq<char>>)
    requires
        parts.len() >= 1,
        forall|i: int| 0 <= i < parts.len() ==> colon_free(#[trigger] parts[i]),
    ensures
        split_colon(join_colon(parts)) == parts,
    decreases parts.len(),
{
    let e = Seq::<char>::empty();
    if parts.len() == 1 {
        lemma_split_append_free(e, parts[0]);
        assert(e + parts[0] =~= parts[0]);
        assert(e + parts[0] =~= parts[0]);
        assert(split_colon(e).update(0, e + parts[0]) =~= parts);
    } else {
        let init = parts.drop_last();
        assert forall|i: int| 0 <= i < init.len() implies colon_free(#[trigger] init[i]) by {
            assert(init[i] == parts[i]);
        }
        lemma_split_join(init);
        let j = join_colon(init);
        let jc = j + seq![':'];
        assert(jc.drop_last() =~= j);
        assert(split_colon(jc) == split_colon(j).push(e));
        assert(colon_free(parts.last())) by {
            assert(parts.last() == parts[parts.len() - 1]);
        }
        lemma_split_append_free(jc, parts.last());
        assert(e + parts.last() =~= parts.last());
        assert(init.push(e).update(init.len() as int, parts.last()) =~= parts);
    }
}

proof fn lemma_literal_parts()
    ensures
        colon_free("edit"@),
        colon_free("item"@),
        colon_free("field"@),
        colon_free("sel"@),
        colon_free("val"@),
        colon_free("modal"@),
        "edit"@ != "field"@,
        "edit"@ != "val"@,
        "field"@ != "val"@,
        "sel"@ != "modal"@,
{
    reveal_strlit("edit");
    reveal_strlit("item");
    reveal_strlit("field");
    reveal_strlit("sel");
    reveal_strlit("val");
    reveal_strlit("modal");
    assert("edit"@[0] != "field"@[0]);
    assert("edit"@[0] != "val"@[0]);
    assert("field"@[0] != "val"@[0]);
    assert("sel"@[0] != "modal"@[0]);
}

proof fn lemma_number_part(n: u64)
    ensures
        colon_free(nat_text(n as nat)),
        parse_u64_spec(nat_text(n as nat)) == Some(n),
{
    lemma_nat_text(n as nat);
    let t = nat_text(n as nat);
    assert forall|i: int| 0 <= i < t.len() implies t[i] != ':' by {
        assert(is_digit(t[i]));
    }
}

/// Decoding the encoded form of a valid token gives the token back.
pub proof fn lemma_token_round_trip(t: TokenView)
    requires
        token_valid(t),
    ensures
        decode_spec(encode_spec(t)) == Some(t),
{
    lemma_literal_parts();
    let n = match t {
        TokenView::EditItem { number, .. } => number,
        TokenView::FieldChoice { number, .. } => number,
        TokenView::ValueChoice { number, .. } => number,
        TokenView::ValueEntry { number, .. } => number,
    };
    lemma_number_part(n);
    let ps = token_parts(t);
    assert forall|i: int| 0 <= i < ps.len() implies colon_free(#[trigger] ps[i]) by {}
    lemma_split_join(ps);
}

proof fn lemma_join4(a: Seq<char>, b: Seq<char>, c: Seq<char>, d: Seq<char>)
    ensures
        join_colon(seq![a, b, c, d]) == a + seq![':'] + b + seq![':'] + c + seq![':'] + d,
{
    let s4 = seq![a, b, c, d];
    assert(s4.drop_last() =~= seq![a, b, c]);
    assert(seq![a, b, c].drop_last() =~= seq![a, b]);
    assert(seq![a, b].drop_last() =~= seq![a]);
    assert(join_colon(seq![a]) == a);
    assert(seq![a, b].last() == b);
    assert(join_colon(seq![a, b]) == a + seq![':'] + b);
    assert(seq![a, b, c].last() == c);
    assert(join_colon(seq![a, b, c]) == a + seq![':'] + b + seq![':'] + c);
    assert(s4.last() == d);
}

proof fn lemma_join5(a: Seq<char>, b: Seq<char>, c: Seq<char>, d: Seq<char>, e: Seq<char>)
    ensures
        join_colon(seq![a, b, c, d, e]) == a + seq![':'] + b + seq![':'] + c + seq![':'] + d
            + seq![':'] + e,
{
    lemma_join4(a, b, c, d);
    assert(seq![a, b, c, d, e].drop_last() =~= seq![a, b, c, d]);
    assert(seq![a, b, c, d, e].last() == e);
}

fn split_at_colons(s: &str) -> (r: Vec<String>)
    ensures
        views(r@) == split_colon(s@),
{
    let cs = chars_of(s);
    let mut parts: Vec<String> = Vec::new();
    let mut cur = String::new();
    let mut i: usize = 0;
    assert(cs@.take(0) =~= Seq::<char>::empty());
    assert(views(parts@).push(cur@) =~= split_colon(cs@.take(0)));
    while i < cs.len()
        invariant
            i <= cs@.len(),
            cs@ == s@,
            views(parts@).push(cur@) == split_colon(cs@.take(i as int)),
        decreases cs@.len() - i,
    {
        let c = cs[i];
        assert(cs@.take(i + 1).drop_last() =~= cs@.take(i as int));
        assert(cs@.take(i + 1).last() == c);
        if c == ':' {
            parts.push(cur);
            cur = String::new();
            assert(views(parts@).push(cur@) =~= split_colon(cs@.take(i as int)).push(
                Seq::empty(),
            ));
        } else {
            let ghost before = cur@;
            push_char(&mut cur, c);
            assert(views(parts@).push(cur@) =~= split_colon(cs@.take(i as int)).update(
                split_colon(cs@.take(i as int)).len() - 1,
                before.push(c),
            ));
        }
        i = i + 1;
    }
    assert(cs@.take(i as int) =~= s@);
    parts.push(cur);
    assert(views(parts@) =~= split_colon(s@));
    parts
}

fn parse_number_part(s: &String) -> (r: Option<u64>)
    ensures
        r == parse_u64_spec(s@),
{
    let cs = chars_of(s.as_str());
    parse_u64(cs.as_slice())
}

impl CorrelationToken {
    /// The identifier that carries this token: its fields joined by `:`.
    pub fn encode(&self) -> (r: String)
        ensures
            r@ == encode_spec(self@),
    {
        proof {
            reveal_strlit("edit");
            reveal_strlit("item");
            reveal_strlit("field");
            reveal_strlit("sel");
            reveal_strlit("val");
            reveal_strlit("modal");
        }
        let mut s = String::new();
        match self {
            CorrelationToken::EditItem { project_id, number } => {
                s.append("edit");
                push_char(&mut s, ':');
                s.append("item");
                push_char(&mut s, ':');
                s.append(project_id.as_str());
                push_char(&mut s, ':');
                push_decimal(&mut s, *number);
                proof {
                    lemma_join4("edit"@, "item"@, project_id@, nat_text(*number as nat));
                    assert(s@ =~= encode_spec(self@));
                }
            },
            CorrelationToken::FieldChoice { project_id, number } => {
                s.append("field");
                push_char(&mut s, ':');
                s.append("sel");
                push_char(&mut s, ':');
                s.append(project_id.as_str());
                push_char(&mut s, ':');
                push_decimal(&mut s, *number);
                proof {
                    lemma_join4("field"@, "sel"@, project_id@, nat_text(*number as nat));
                    assert(s@ =~= encode_spec(self@));
                }
            },
            CorrelationToken::ValueChoice { project_id, number, field_id } => {
                s.append("val");
                push_char(&mut s, ':');
                s.append("sel");
                push_char(&mut s, ':');
                s.append(project_id.as_str());
                push_char(&mut s, ':');
                push_decimal(&mut s, *number);
                push_char(&mut s, ':');
                s.append(field_id.as_str());
                proof {
                    lemma_join5("val"@, "sel"@, project_id@, nat_text(*number as nat), field_id@);
                    assert(s@ =~= encode_spec(self@));
                }
            },
            CorrelationToken::ValueEntry { project_id, number, field_id } => {
                s.append("val");
                push_char(&mut s, ':');
                s.append("modal");
                push_char(&mut s, ':');
                s.append(project_id.as_str());
                push_char(&mut s, ':');
                push_decimal(&mut s, *number);
                push_char(&mut s, ':');
                s.append(field_id.as_str());
                proof {
                    lemma_join5("val"@, "modal"@, project_id@, nat_text(*number as nat), field_id@);
                    assert(s@ =~= encode_spec(self@));
                }
            },
        }
        s
    }

    /// The token that a control identifier carries; `None` when its shape
    /// matches no step of the workflow (a stale or foreign control).
    pub fn decode(s: &str) -> (r: Option<CorrelationToken>)
        ensures
            match r {
                Some(t) => decode_spec(s@) == Some(t@),
                None => decode_spec(s@) is None,
            },
    {
        let ps = split_at_colons(s);
        let n = ps.len();
        if n != 4 && n != 5 {
            return None;
        }
        let num = match parse_number_part(&ps[3]) {
            Some(v) => v,
            None => {
                return None;
            },
        };
        let head_edit = text_eq(ps[0].as_str(), "edit");
        let head_field = text_eq(ps[0].as_str(), "field");
        let head_val = text_eq(ps[0].as_str(), "val");
        let second_item = text_eq(ps[1].as_str(), "item");
        let second_sel = text_eq(ps[1].as_str(), "sel");
        let second_modal = text_eq(ps[1].as_str(), "modal");
        if n == 4 && head_edit && second_item {
            Some(CorrelationToken::EditItem { project_id: ps[2].clone(), number: num })
        } else if n == 4 && head_field && second_sel {
            Some(CorrelationToken::FieldChoice { project_id: ps[2].clone(), number: num })
        } else if n == 5 && head_val && second_sel {
            Some(
                CorrelationToken::ValueChoice {
                    project_id: ps[2].clone(),
                    number: num,
                    field_id: ps[4].clone(),
                },
            )
        } else if n == 5 && head_val && second_modal {
            Some(
                CorrelationToken::ValueEntry {
                    project_id: ps[2].clone(),
                    number: num,
                    field_id: ps[4].clone(),
                },
            )
        } else {
            None
        }
    }
}

} // verus!
