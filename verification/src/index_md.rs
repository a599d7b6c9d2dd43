//! The `index.md` file of a thread: its scaffold at creation, and the
//! rewrite of its header lines when the thread is updated.

use vstd::prelude::*;
use crate::model::id4;
use crate::text::{decimal, push_char, push_zero_padded, starts_with};

verus! {

/// The scaffold of a new thread's `index.md`.
pub open spec fn index_md_spec(
    id: u32,
    slug: Seq<char>,
    priority: Seq<char>,
    date: Seq<char>,
    description: Seq<char>,
) -> Seq<char> {
    "# "@ + id4(id) + " "@ + slug + "\n\n- **Priority**: "@ + priority + "\n- **Created**: "@ + date
        + "\n- **Description**: "@ + description + "\n\n## Notes\n\n"@
}

/// Scaffolds `index.md` with the thread's metadata.
pub fn index_md_content(id: u32, slug: &str, priority: &str, date: &str, description: &str) -> (r: String)
    ensures
        r@ == index_md_spec(id, slug@, priority@, date@, description@),
{
    let mut r = String::from_str("# ");
    push_zero_padded(&mut r, id as u64, 4);
    r.append(" ");
    r.append(slug);
    r.append("\n\n- **Priority**: ");
    r.append(priority);
    r.append("\n- **Created**: ");
    r.append(date);
    r.append("\n- **Description**: ");
    r.append(description);
    r.append("\n\n## Notes\n\n");
    r
}

// ---------------------------------------------------------------------------
// Lines
// ---------------------------------------------------------------------------

/// The pieces of `s` between `'\n'` characters (one more piece than there
/// are newlines).
pub open spec fn split_nl(s: Seq<char>) -> Seq<Seq<char>>
    decreases s.len(),
{
    if s.len() == 0 {
        seq![Seq::empty()]
    } else if s.last() == '\n' {
        split_nl(s.drop_last()).push(Seq::empty())
    } else {
        let p = split_nl(s.drop_last());
        p.update(p.len() - 1, p.last().push(s.last()))
    }
}

/// A line without the `'\r'` of a `"\r\n"` ending.
pub open spec fn strip_cr(l: Seq<char>) -> Seq<char> {
    if l.len() > 0 && l.last() == '\r' {
        l.drop_last()
    } else {
        l
    }
}

/// The lines of `s` as `str::lines` gives them: split at `'\n'`, a line
/// ended by `"\r\n"` loses its `'\r'`, and a final line ending adds no
/// empty line.
pub open spec fn lines_spec(s: Seq<char>) -> Seq<Seq<char>> {
    let p = split_nl(s);
    if s.len() == 0 || s.last() == '\n' {
        Seq::new((p.len() - 1) as nat, |i: int| strip_cr(p[i]))
    } else {
        Seq::new(p.len(), |i: int| if i < p.len() - 1 { strip_cr(p[i]) } else { p[i] })
    }
}

/// Lines joined with `'\n'` between them.
pub open spec fn join_nl(ls: Seq<Seq<char>>) -> Seq<char>
    decreases ls.len(),
{
    if ls.len() == 0 {
        Seq::empty()
    } else if ls.len() == 1 {
        ls[0]
    } else {
        join_nl(ls.drop_last()) + "\n"@ + ls.last()
    }
}

proof fn lemma_split_nl_len(s: Seq<char>)
    ensures
        split_nl(s).len() >= 1,
    decreases s.len(),
{
    if s.len() > 0 {
        lemma_split_nl_len(s.drop_last());
    }
}

/// The lines of a string, as `str::lines` gives them.
pub fn lines_of(s: &str) -> (r: Vec<String>)
    ensures
        r@.map_values(|l: String| l@) == lines_spec(s@),
{
    let n = s.unicode_len();
    let mut pieces: Vec<String> = Vec::new();
    pieces.push(String::new());
    let mut i: usize = 0;
    while i < n
        invariant
            i <= n,
            n == s@.len(),
            pieces@.map_values(|l: String| l@) == split_nl(s@.take(i as int)),
            pieces@.len() >= 1,
        decreases n - i,
    {
        let c = s.get_char(i);
        let ghost before = pieces@.map_values(|l: String| l@);
        proof {
            assert(s@.take(i + 1).drop_last() =~= s@.take(i as int));
            assert(s@.take(i + 1).last() == c);
        }
        if c == '\n' {
            pieces.push(String::new());
            assert(pieces@.map_values(|l: String| l@) =~= before.push(Seq::empty()));
        } else {
            let last = pieces.len() - 1;
            let mut l = pieces.pop().unwrap();
            push_char(&mut l, c);
            pieces.push(l);
            assert(pieces@.map_values(|l: String| l@) =~= before.update(before.len() - 1, before.last().push(c)));
        }
        i = i + 1;
    }
    proof {
        assert(s@.take(n as int) =~= s@);
        lemma_split_nl_len(s@);
    }
    let ghost p = split_nl(s@);
    let ends_nl = n == 0 || s.get_char(n - 1) == '\n';
    let count = if ends_nl { pieces.len() - 1 } else { pieces.len() };
    let mut r: Vec<String> = Vec::new();
    let mut k: usize = 0;
    let ghost ls = lines_spec(s@);
    assert(ls.len() == count);
    while k < count
        invariant
            ls == lines_spec(s@),
            ls.len() == count,
            p == split_nl(s@),
            k <= count,
            count <= pieces@.len(),
            p == pieces@.map_values(|l: String| l@),
            ends_nl == (s@.len() == 0 || s@.last() == '\n'),
            count == (if ends_nl { p.len() - 1 } else { p.len() as int }),
            r@.len() == k,
            forall|j: int| 0 <= j < k ==> #[trigger] r@[j]@ == ls[j],
        decreases count - k,
    {
        let l = pieces[k].as_str();
        let len = l.unicode_len();
        let keep_cr = !ends_nl && k == pieces.len() - 1;
        let piece = if !keep_cr && len > 0 && l.get_char(len - 1) == '\r' {
            String::from_str(l.substring_char(0, len - 1))
        } else {
            String::from_str(l)
        };
        assert(p[k as int] == pieces@[k as int]@);
        proof {
            assert(l@ == p[k as int]);
            assert(p.len() == pieces@.len());
            if !keep_cr {
                if len > 0 && l@.last() == '\r' {
                    assert(piece@ =~= strip_cr(p[k as int]));
                } else {
                    assert(piece@ == strip_cr(p[k as int]));
                }
                assert(ls[k as int] == strip_cr(p[k as int]));
            } else {
                assert(piece@ == p[k as int]);
                assert(ls[k as int] == p[k as int]);
            }
        }
        r.push(piece);
        k = k + 1;
    }
    assert(r@.map_values(|l: String| l@) =~= lines_spec(s@));
    r
}


// ---------------------------------------------------------------------------
// Rewriting the header
// ---------------------------------------------------------------------------

pub open spec fn has_prefix(s: Seq<char>, prefix: Seq<char>) -> bool {
    prefix.len() <= s.len() && s.subrange(0, prefix.len() as int) == prefix
}

/// The part of `s` before its first space (all of `s` if it has none).
pub open spec fn until_space(s: Seq<char>) -> Seq<char>
    decreases s.len(),
{
    if s.len() == 0 {
        s
    } else if s[0] == ' ' {
        Seq::empty()
    } else {
        seq![s[0]] + until_space(s.drop_first())
    }
}

/// One line of `index.md` after an update: the title keeps its number and
/// takes the new slug, and the priority and description lines take the new
/// values; other lines stay as they are.
pub open spec fn rewrite_line(
    line: Seq<char>,
    slug: Seq<char>,
    priority: Seq<char>,
    description: Seq<char>,
) -> Seq<char> {
    if has_prefix(line, "# "@) {
        "# "@ + until_space(line.skip(2)) + " "@ + slug
    } else if has_prefix(line, "- **Priority**:"@) {
        "- **Priority**: "@ + priority
    } else if has_prefix(line, "- **Description**:"@) {
        "- **Description**: "@ + description
    } else {
        line
    }
}

/// `index.md` after an update: every line rewritten, joined with `'\n'`.
pub open spec fn update_index_md_spec(
    content: Seq<char>,
    slug: Seq<char>,
    priority: Seq<char>,
    description: Seq<char>,
) -> Seq<char> {
    join_nl(lines_spec(content).map_values(|l: Seq<char>| rewrite_line(l, slug, priority, description)))
}

fn rewrite_one(line: &str, slug: &str, priority: &str, description: &str) -> (r: String)
    ensures
        r@ == rewrite_line(line@, slug@, priority@, description@),
{
    if starts_with(line, "# ") {
        let n = line.unicode_len();
        let mut r = String::from_str("# ");
        let mut i: usize = 2;
        proof {
            reveal_strlit("# ");
        }
        while i < n && line.get_char(i) != ' '
            invariant
                2 <= i <= n,
                n == line@.len(),
                r@ + until_space(line@.skip(i as int)) == "# "@ + until_space(line@.skip(2)),
            decreases n - i,
        {
            let c = line.get_char(i);
            proof {
                let t = line@.skip(i as int);
                assert(t[0] == c);
                assert(t.drop_first() =~= line@.skip(i + 1));
                assert(until_space(t) == seq![c] + until_space(t.drop_first()));
                assert(r@.push(c) + until_space(line@.skip(i + 1)) =~= r@ + until_space(t));
            }
            push_char(&mut r, c);
            i = i + 1;
        }
        proof {
            let t = line@.skip(i as int);
            if i < n {
                assert(t[0] == ' ');
            }
            assert(until_space(t) =~= Seq::<char>::empty());
            assert(r@ =~= r@ + until_space(t));
        }
        r.append(" ");
        r.append(slug);
        r
    } else if starts_with(line, "- **Priority**:") {
        let mut r = String::from_str("- **Priority**: ");
        r.append(priority);
        r
    } else if starts_with(line, "- **Description**:") {
        let mut r = String::from_str("- **Description**: ");
        r.append(description);
        r
    } else {
        String::from_str(line)
    }
}

/// Update the frontmatter lines in index.md for slug, priority, and description.
pub fn update_index_md(content: &str, slug: &str, priority: &str, description: &str) -> (r: String)
    ensures
        r@ == update_index_md_spec(content@, slug@, priority@, description@),
{
    let lines = lines_of(content);
    let ghost mapped = lines_spec(content@).map_values(|l: Seq<char>| rewrite_line(l, slug@, priority@, description@));
    let mut r = String::new();
    let mut k: usize = 0;
    while k < lines.len()
        invariant
            k <= lines@.len(),
            lines@.map_values(|l: String| l@) == lines_spec(content@),
            mapped == lines_spec(content@).map_values(|l: Seq<char>| rewrite_line(l, slug@, priority@, description@)),
            r@ == join_nl(mapped.take(k as int)),
        decreases lines.len() - k,
    {
        let line = rewrite_one(lines[k].as_str(), slug, priority, description);
        proof {
            assert(lines@[k as int]@ == lines_spec(content@)[k as int]);
            assert(mapped.take(k + 1).drop_last() =~= mapped.take(k as int));
            assert(mapped.take(k + 1).last() == line@);
        }
        if k > 0 {
            r.append("\n");
        } else {
            assert(mapped.take(1) =~= seq![line@]);
        }
        r.append(line.as_str());
        k = k + 1;
    }
    assert(mapped.take(lines.len() as int) =~= mapped);
    r
}

// ---------------------------------------------------------------------------
// Updating a scaffold
// ---------------------------------------------------------------------------

pub open spec fn no_newline(s: Seq<char>) -> bool {
    forall|i: int| 0 <= i < s.len() ==> #[trigger] s[i] != '\n'
}

proof fn lemma_split_single(l: Seq<char>)
    requires
        no_newline(l),
    ensures
        split_nl(l) == seq![l],
    decreases l.len(),
{
    if l.len() > 0 {
        let p = l.drop_last();
        assert(l[l.len() - 1] != '\n');
        assert forall|i: int| 0 <= i < p.len() implies #[trigger] p[i] != '\n' by {
            assert(p[i] == l[i]);
        }
        lemma_split_single(p);
        assert(p.push(l.last()) =~= l);
        assert(seq![p].update(0, p.push(l.last())) =~= seq![l]);
    } else {
        assert(l =~= Seq::<char>::empty());
    }
}

/// Splitting after one more line break adds the line that follows it.
proof fn lemma_split_after_newline(s: Seq<char>, l: Seq<char>)
    requires
        no_newline(l),
    ensures
        split_nl(s + seq!['\n'] + l) == split_nl(s).push(l),
    decreases l.len(),
{
    let t = s + seq!['\n'] + l;
    if l.len() == 0 {
        assert(t.drop_last() =~= s);
        assert(t.last() == '\n');
        assert(l =~= Seq::<char>::empty());
    } else {
        let l1 = l.drop_last();
        assert(l[l.len() - 1] != '\n');
        assert forall|i: int| 0 <= i < l1.len() implies #[trigger] l1[i] != '\n' by {
            assert(l1[i] == l[i]);
        }
        lemma_split_after_newline(s, l1);
        assert(t.drop_last() =~= s + seq!['\n'] + l1);
        assert(t.last() == l.last());
        assert(l1.push(l.last()) =~= l);
        assert(split_nl(s).push(l1).update(split_nl(s).len() as int, l) =~= split_nl(s).push(l));
    }
}

/// Lines without line breaks, joined, split back into the same lines.
proof fn lemma_split_join(ls: Seq<Seq<char>>)
    requires
        ls.len() >= 1,
        forall|i: int| 0 <= i < ls.len() ==> no_newline(#[trigger] ls[i]),
    ensures
        split_nl(join_nl(ls)) == ls,
    decreases ls.len(),
{
    if ls.len() == 1 {
        lemma_split_single(ls[0]);
        assert(seq![ls[0]] =~= ls);
    } else {
        let p = ls.drop_last();
        lemma_split_join(p);
        reveal_strlit("\n");
        assert("\n"@ =~= seq!['\n']);
        lemma_split_after_newline(join_nl(p), ls.last());
        assert(p.push(ls.last()) =~= ls);
    }
}

/// The lines of joined lines that end with a line break are those lines
/// (without a carriage return at their end).
proof fn lemma_lines_of_joined(ls: Seq<Seq<char>>)
    requires
        ls.len() >= 1,
        forall|i: int| 0 <= i < ls.len() ==> no_newline(#[trigger] ls[i]),
    ensures
        lines_spec(join_nl(ls) + "\n"@) == ls.map_values(|l: Seq<char>| strip_cr(l)),
{
    let t = join_nl(ls) + "\n"@;
    reveal_strlit("\n");
    lemma_split_join(ls);
    assert(t.drop_last() =~= join_nl(ls));
    assert(t.last() == '\n');
    assert(split_nl(t) == ls.push(Seq::empty()));
    assert(lines_spec(t) =~= ls.map_values(|l: Seq<char>| strip_cr(l)));
}

/// The lines of a thread's `index.md` scaffold.
pub open spec fn scaffold_lines(
    id: u32,
    slug: Seq<char>,
    priority: Seq<char>,
    date: Seq<char>,
    description: Seq<char>,
) -> Seq<Seq<char>> {
    seq![
        "# "@ + id4(id) + " "@ + slug,
        Seq::empty(),
        "- **Priority**: "@ + priority,
        "- **Created**: "@ + date,
        "- **Description**: "@ + description,
        Seq::empty(),
        "## Notes"@,
        Seq::empty(),
    ]
}

proof fn lemma_scaffold_is_joined_lines(
    id: u32,
    slug: Seq<char>,
    priority: Seq<char>,
    date: Seq<char>,
    description: Seq<char>,
)
    ensures
        index_md_spec(id, slug, priority, date, description)
            == join_nl(scaffold_lines(id, slug, priority, date, description)) + "\n"@,
{
    let ls = scaffold_lines(id, slug, priority, date, description);
    reveal_with_fuel(join_nl, 9);
    reveal_strlit("\n");
    reveal_strlit("\n\n- **Priority**: ");
    reveal_strlit("- **Priority**: ");
    reveal_strlit("\n- **Created**: ");
    reveal_strlit("- **Created**: ");
    reveal_strlit("\n- **Description**: ");
    reveal_strlit("- **Description**: ");
    reveal_strlit("\n\n## Notes\n\n");
    reveal_strlit("## Notes");
    let nl = "\n"@;
    assert(ls.drop_last().drop_last().drop_last().drop_last().drop_last().drop_last().drop_last() =~= seq![ls[0]]);
    assert(join_nl(ls) =~= ls[0] + nl + ls[1] + nl + ls[2] + nl + ls[3] + nl + ls[4] + nl + ls[5] + nl + ls[6] + nl + ls[7]);
    assert(index_md_spec(id, slug, priority, date, description) =~= join_nl(ls) + nl);
}

proof fn lemma_until_space_of(a: Seq<char>, b: Seq<char>)
    requires
        forall|i: int| 0 <= i < a.len() ==> #[trigger] a[i] != ' ',
    ensures
        until_space(a + " "@ + b) == a,
    decreases a.len(),
{
    reveal_strlit(" ");
    let t = a + " "@ + b;
    if a.len() == 0 {
        assert(t[0] == ' ');
        assert(a =~= Seq::<char>::empty());
    } else {
        let a1 = a.drop_first();
        assert forall|i: int| 0 <= i < a1.len() implies #[trigger] a1[i] != ' ' by {
            assert(a1[i] == a[i + 1]);
        }
        lemma_until_space_of(a1, b);
        assert(t[0] == a[0] && a[0] != ' ');
        assert(t.drop_first() =~= a1 + " "@ + b);
        assert(seq![a[0]] + a1 =~= a);
    }
}

proof fn lemma_id4_has_no_space(id: u32)
    ensures
        forall|i: int| 0 <= i < id4(id).len() ==> #[trigger] id4(id)[i] != ' ',
{
    crate::text::lemma_decimal(id as nat);
    let d = decimal(id as nat);
    assert forall|i: int| 0 <= i < id4(id).len() implies #[trigger] id4(id)[i] != ' ' by {
        if d.len() < 4 {
            let k = 4 - d.len();
            if i >= k {
                assert(id4(id)[i] == d[i - k]);
                assert(crate::text::is_digit(d[i - k]));
            }
        } else {
            assert(crate::text::is_digit(d[i]));
        }
    }
}

/// Rewriting the scaffold's lines gives the scaffold of the new values.
proof fn lemma_rewrite_scaffold(
    id: u32,
    slug: Seq<char>,
    priority: Seq<char>,
    date: Seq<char>,
    description: Seq<char>,
    new_slug: Seq<char>,
    new_priority: Seq<char>,
    new_description: Seq<char>,
)
    requires
        !(date.len() > 0 && date.last() == '\r'),
    ensures
        scaffold_lines(id, slug, priority, date, description)
            .map_values(|l: Seq<char>| rewrite_line(strip_cr(l), new_slug, new_priority, new_description))
            == scaffold_lines(id, new_slug, new_priority, date, new_description),
{
    let ls = scaffold_lines(id, slug, priority, date, description);
    let out = scaffold_lines(id, new_slug, new_priority, date, new_description);
    let hash = "# "@;
    let pri = "- **Priority**:"@;
    let des = "- **Description**:"@;
    reveal_strlit("# ");
    reveal_strlit(" ");
    reveal_strlit("- **Priority**:");
    reveal_strlit("- **Priority**: ");
    reveal_strlit("- **Created**: ");
    reveal_strlit("- **Description**:");
    reveal_strlit("- **Description**: ");
    reveal_strlit("## Notes");
    lemma_id4_has_no_space(id);
    // the title
    let l0 = strip_cr(ls[0]);
    assert(l0 =~= "# "@ + id4(id) + " "@ + slug || l0 =~= "# "@ + id4(id) + " "@ + slug.drop_last());
    let rest = if l0 =~= "# "@ + id4(id) + " "@ + slug { slug } else { slug.drop_last() };
    assert(l0 =~= "# "@ + (id4(id) + " "@ + rest));
    assert(l0.subrange(0, 2) =~= hash);
    assert(l0.skip(2) =~= id4(id) + " "@ + rest);
    lemma_until_space_of(id4(id), rest);
    assert(rewrite_line(l0, new_slug, new_priority, new_description) == out[0]);
    // the priority
    let l2 = strip_cr(ls[2]);
    assert(l2[0] == '-');
    assert(!has_prefix(l2, hash)) by {
        if has_prefix(l2, hash) {
            assert(l2.subrange(0, 2)[0] == hash[0]);
        }
    }
    assert(l2.subrange(0, 15) =~= pri);
    assert(rewrite_line(l2, new_slug, new_priority, new_description) == out[2]);
    // the creation date
    let l3 = strip_cr(ls[3]);
    assert(l3 == ls[3]);
    assert(l3[0] == '-' && l3[4] == 'C');
    assert(!has_prefix(l3, hash)) by {
        if has_prefix(l3, hash) {
            assert(l3.subrange(0, 2)[0] == hash[0]);
        }
    }
    assert(!has_prefix(l3, pri)) by {
        if has_prefix(l3, pri) {
            assert(l3.subrange(0, 15)[4] == pri[4]);
        }
    }
    assert(!has_prefix(l3, des)) by {
        if has_prefix(l3, des) {
            assert(l3.subrange(0, 18)[4] == des[4]);
        }
    }
    assert(rewrite_line(l3, new_slug, new_priority, new_description) == out[3]);
    // the description
    let l4 = strip_cr(ls[4]);
    assert(l4[0] == '-' && l4[4] == 'D');
    assert(!has_prefix(l4, hash)) by {
        if has_prefix(l4, hash) {
            assert(l4.subrange(0, 2)[0] == hash[0]);
        }
    }
    assert(!has_prefix(l4, pri)) by {
        if has_prefix(l4, pri) {
            assert(l4.subrange(0, 15)[4] == pri[4]);
        }
    }
    assert(l4.subrange(0, 18) =~= des);
    assert(rewrite_line(l4, new_slug, new_priority, new_description) == out[4]);
    // the notes heading and the empty lines
    let l6 = strip_cr(ls[6]);
    assert(l6 == ls[6]);
    assert(l6[1] == '#');
    assert(!has_prefix(l6, hash)) by {
        if has_prefix(l6, hash) {
            assert(l6.subrange(0, 2)[1] == hash[1]);
        }
    }
    assert(!has_prefix(l6, pri));
    assert(!has_prefix(l6, des));
    assert(rewrite_line(l6, new_slug, new_priority, new_description) == out[6]);
    assert(strip_cr(ls[1]) == ls[1] && strip_cr(ls[5]) == ls[5] && strip_cr(ls[7]) == ls[7]);
    assert(ls.map_values(|l: Seq<char>| rewrite_line(strip_cr(l), new_slug, new_priority, new_description)) =~= out);
}

/// Updating a freshly scaffolded `index.md` gives the scaffold of the new
/// slug, priority and description, with the creation line kept and one line
/// end fewer at the end (lines are joined back without a final line end).
/// This holds when the old values span one line each and the date does not
/// end in a carriage return.
pub proof fn law_update_rewrites_scaffold(
    id: u32,
    slug: Seq<char>,
    priority: Seq<char>,
    date: Seq<char>,
    description: Seq<char>,
    new_slug: Seq<char>,
    new_priority: Seq<char>,
    new_description: Seq<char>,
)
    requires
        no_newline(slug),
        no_newline(priority),
        no_newline(date),
        no_newline(description),
        !(date.len() > 0 && date.last() == '\r'),
    ensures
        update_index_md_spec(index_md_spec(id, slug, priority, date, description), new_slug, new_priority, new_description)
            == index_md_spec(id, new_slug, new_priority, date, new_description).drop_last(),
{
    let ls = scaffold_lines(id, slug, priority, date, description);
    let out = scaffold_lines(id, new_slug, new_priority, date, new_description);
    lemma_scaffold_is_joined_lines(id, slug, priority, date, description);
    lemma_scaffold_is_joined_lines(id, new_slug, new_priority, date, new_description);
    lemma_id4_has_no_space(id);
    reveal_strlit("# ");
    reveal_strlit(" ");
    reveal_strlit("- **Priority**: ");
    reveal_strlit("- **Created**: ");
    reveal_strlit("- **Description**: ");
    reveal_strlit("## Notes");
    assert forall|i: int| 0 <= i < ls.len() implies no_newline(#[trigger] ls[i]) by {
        assert forall|k: int| 0 <= k < ls[i].len() implies #[trigger] ls[i][k] != '\n' by {
            if i == 0 {
                if k >= 2 + id4(id).len() + 1 {
                    assert(ls[i][k] == slug[k - 3 - id4(id).len()]);
                } else if k >= 2 && k < 2 + id4(id).len() {
                    assert(ls[i][k] == id4(id)[k - 2]);
                    crate::text::lemma_decimal(id as nat);
                }
            } else if i == 2 && k >= 16 {
                assert(ls[i][k] == priority[k - 16]);
            } else if i == 3 && k >= 15 {
                assert(ls[i][k] == date[k - 15]);
            } else if i == 4 && k >= 19 {
                assert(ls[i][k] == description[k - 19]);
            }
        }
    }
    lemma_lines_of_joined(ls);
    lemma_rewrite_scaffold(id, slug, priority, date, description, new_slug, new_priority, new_description);
    let rewritten = lines_spec(join_nl(ls) + "\n"@).map_values(|l: Seq<char>| rewrite_line(l, new_slug, new_priority, new_description));
    assert(rewritten =~= out);
    reveal_strlit("\n");
    assert((join_nl(out) + "\n"@).drop_last() =~= join_nl(out));
}

} // verus!
