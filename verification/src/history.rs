use vstd::prelude::*;

verus! {

use vstd::string::StringExecFns;
use vstd::string::StrSliceExecFns;

/// One record of a successfully attempted generation step, as the history
/// artifact keeps it.
pub struct HistoryEntry {
    /// 1-based index of the step in the plan.
    pub step: u32,
    /// The plan entry's relative file name.
    pub file_name: String,
    /// The materializer's outcome string for this step's write.
    pub file_operation: String,
    /// The sanitized content recorded for the file.
    pub file_content: String,
}

/// The decimal digits, continued by the lower-case hexadecimal ones.
pub open spec fn digit_char(d: int) -> char {
    if d == 0 {
        '0'
    } else if d == 1 {
        '1'
    } else if d == 2 {
        '2'
    } else if d == 3 {
        '3'
    } else if d == 4 {
        '4'
    } else if d == 5 {
        '5'
    } else if d == 6 {
        '6'
    } else if d == 7 {
        '7'
    } else if d == 8 {
        '8'
    } else if d == 9 {
        '9'
    } else if d == 10 {
        'a'
    } else if d == 11 {
        'b'
    } else if d == 12 {
        'c'
    } else if d == 13 {
        'd'
    } else if d == 14 {
        'e'
    } else {
        'f'
    }
}

/// The decimal text of `n`, most significant digit first, with no sign and
/// no leading zero.
pub open spec fn dec_str(n: nat) -> Seq<char>
    decreases n,
{
    if n < 10 {
        seq![digit_char(n as int)]
    } else {
        dec_str(n / 10) + seq![digit_char((n % 10) as int)]
    }
}

/// The JSON string escape of one character: the two-character escapes for
/// the common controls, `\u00XX` for the remaining controls, and the
/// character itself otherwise.
pub open spec fn json_escape_char(c: char) -> Seq<char> {
    if c == '"' {
        seq!['\\', '"']
    } else if c == '\\' {
        seq!['\\', '\\']
    } else if c == '\u{08}' {
        seq!['\\', 'b']
    } else if c == '\u{09}' {
        seq!['\\', 't']
    } else if c == '\u{0a}' {
        seq!['\\', 'n']
    } else if c == '\u{0c}' {
        seq!['\\', 'f']
    } else if c == '\u{0d}' {
        seq!['\\', 'r']
    } else if (c as int) < 0x20 {
        seq!['\\', 'u', '0', '0', digit_char(c as int / 16), digit_char(c as int % 16)]
    } else {
        seq![c]
    }
}

/// The JSON string escape of a text, character for character.
pub open spec fn json_escape(s: Seq<char>) -> Seq<char>
    decreases s.len(),
{
    if s.len() == 0 {
        Seq::empty()
    } else {
        json_escape_char(s[0]) + json_escape(s.drop_first())
    }
}

/// The JSON object for one history entry, keys in sorted order.
pub open spec fn entry_json(e: HistoryEntry) -> Seq<char> {
    "{\"file_content\":\""@ + json_escape(e.file_content@) + "\",\"file_name\":\""@ + json_escape(
        e.file_name@,
    ) + "\",\"file_operation\":\""@ + json_escape(e.file_operation@) + "\",\"step\":"@ + dec_str(
        e.step as nat,
    ) + "}"@
}

/// The comma-separated JSON array items for the entries, in order.
pub open spec fn entries_json(entries: Seq<HistoryEntry>) -> Seq<char>
    decreases entries.len(),
{
    if entries.len() == 0 {
        Seq::empty()
    } else if entries.len() == 1 {
        entry_json(entries[0])
    } else {
        entry_json(entries[0]) + seq![','] + entries_json(entries.drop_first())
    }
}

/// The whole history artifact document: the output-root tag and the ordered
/// run records, as one JSON object with keys in sorted order.
pub open spec fn history_json_spec(dir: Seq<char>, entries: Seq<HistoryEntry>) -> Seq<char> {
    "{\"app_directory\":\""@ + json_escape(dir) + "\",\"iterations\":["@ + entries_json(entries)
        + "]}"@
}

/// Escaping one more character appends that character's escape.
proof fn lemma_json_escape_snoc(s: Seq<char>, i: int)
    requires
        0 <= i < s.len(),
    ensures
        json_escape(s.take(i + 1)) == json_escape(s.take(i)) + json_escape_char(s[i]),
    decreases i,
{
    if i == 0 {
        assert(s.take(1) =~= seq![s[0]]);
        assert(s.take(1).drop_first() =~= Seq::<char>::empty());
        assert(s.take(0) =~= Seq::<char>::empty());
        assert(json_escape(Seq::<char>::empty()) =~= Seq::<char>::empty());
        assert(json_escape(s.take(1)) =~= json_escape_char(s[0]));
        assert(json_escape(s.take(0)) + json_escape_char(s[0]) =~= json_escape_char(s[0]));
    } else {
        let t = s.drop_first();
        lemma_json_escape_snoc(t, i - 1);
        assert(s.take(i + 1).drop_first() =~= t.take(i));
        assert(s.take(i).drop_first() =~= t.take(i - 1));
        assert(s.take(i + 1)[0] == s[0]);
        assert(s.take(i)[0] == s[0]);
        assert(t[i - 1] == s[i]);
        assert(json_escape(s.take(i + 1)) == json_escape_char(s[0]) + json_escape(t.take(i)));
        assert(json_escape(s.take(i)) == json_escape_char(s[0]) + json_escape(t.take(i - 1)));
        assert(json_escape_char(s[0]) + (json_escape(t.take(i - 1)) + json_escape_char(s[i]))
            =~= (json_escape_char(s[0]) + json_escape(t.take(i - 1))) + json_escape_char(s[i]));
    }
}

/// Joining one more entry adds a comma exactly when entries came before it.
proof fn lemma_entries_json_push(entries: Seq<HistoryEntry>, e: HistoryEntry)
    ensures
        entries_json(entries.push(e)) == if entries.len() == 0 {
            entry_json(e)
        } else {
            entries_json(entries) + seq![','] + entries_json(seq![e])
        },
    decreases entries.len(),
{
    if entries.len() == 0 {
        assert(entries.push(e) =~= seq![e]);
    } else {
        assert(entries.push(e).drop_first() =~= entries.drop_first().push(e));
        lemma_entries_json_push(entries.drop_first(), e);
        if entries.len() == 1 {
            assert(entries.drop_first().len() == 0);
            assert(entries_json(entries.push(e)) == entry_json(entries[0]) + seq![','] + entry_json(
                e,
            ));
        } else {
            assert(entry_json(entries[0]) + ((entries_json(entries.drop_first()) + seq![','])
                + entries_json(seq![e])) =~= ((entry_json(entries[0]) + entries_json(
                entries.drop_first(),
            )) + seq![',']) + entries_json(seq![e]));
            assert(entry_json(entries[0]) + (seq![','] + (entries_json(entries.drop_first())
                + seq![','] + entries_json(seq![e]))) =~= ((entry_json(entries[0]) + seq![',']
                + entries_json(entries.drop_first())) + seq![',']) + entries_json(seq![e]));
        }
    }
}

/// Appends one lower-case digit character.
fn append_digit(out: &mut String, d: u32)
    requires
        d < 16,
    ensures
        final(out)@ == old(out)@ + seq![digit_char(d as int)],
{
    if d == 0 {
        proof {
            reveal_strlit("0");
        }
        out.append("0");
    } else if d == 1 {
        proof {
            reveal_strlit("1");
        }
        out.append("1");
    } else if d == 2 {
        proof {
            reveal_strlit("2");
        }
        out.append("2");
    } else if d == 3 {
        proof {
            reveal_strlit("3");
        }
        out.append("3");
    } else if d == 4 {
        proof {
            reveal_strlit("4");
        }
        out.append("4");
    } else if d == 5 {
        proof {
            reveal_strlit("5");
        }
        out.append("5");
    } else if d == 6 {
        proof {
            reveal_strlit("6");
        }
        out.append("6");
    } else if d == 7 {
        proof {
            reveal_strlit("7");
        }
        out.append("7");
    } else if d == 8 {
        proof {
            reveal_strlit("8");
        }
        out.append("8");
    } else if d == 9 {
        proof {
            reveal_strlit("9");
        }
        out.append("9");
    } else if d == 10 {
        proof {
            reveal_strlit("a");
        }
        out.append("a");
    } else if d == 11 {
        proof {
            reveal_strlit("b");
        }
        out.append("b");
    } else if d == 12 {
        proof {
            reveal_strlit("c");
        }
        out.append("c");
    } else if d == 13 {
        proof {
            reveal_strlit("d");
        }
        out.append("d");
    } else if d == 14 {
        proof {
            reveal_strlit("e");
        }
        out.append("e");
    } else {
        proof {
            reveal_strlit("f");
        }
        out.append("f");
    }
    proof {
        assert(final(out)@ =~= old(out)@ + seq![digit_char(d as int)]);
    }
}

/// Appends the decimal text of `n`.
fn append_dec(out: &mut String, n: u32)
    ensures
        final(out)@ == old(out)@ + dec_str(n as nat),
    decreases n,
{
    if n >= 10 {
        append_dec(out, n / 10);
    }
    append_digit(out, n % 10);
    proof {
        if n >= 10 {
            assert((old(out)@ + dec_str((n / 10) as nat)) + seq![digit_char((n % 10) as int)]
                =~= old(out)@ + (dec_str((n / 10) as nat) + seq![digit_char((n % 10) as int)]));
        }
    }
}

/// Appends the JSON escape of the character of `s` at `i`.
fn append_escaped_char(out: &mut String, s: &str, i: usize)
    requires
        i < s@.len(),
        i < usize::MAX,
    ensures
        final(out)@ == old(out)@ + json_escape_char(s@[i as int]),
{
    let c = s.get_char(i);
    let u = c as u32;
    if c == '"' {
        proof {
            reveal_strlit("\\\"");
            assert("\\\""@ =~= json_escape_char(c));
        }
        out.append("\\\"");
    } else if c == '\\' {
        proof {
            reveal_strlit("\\\\");
            assert("\\\\"@ =~= json_escape_char(c));
        }
        out.append("\\\\");
    } else if u == 0x08 {
        proof {
            reveal_strlit("\\b");
            assert("\\b"@ =~= json_escape_char(c));
        }
        out.append("\\b");
    } else if u == 0x09 {
        proof {
            reveal_strlit("\\t");
            assert("\\t"@ =~= json_escape_char(c));
        }
        out.append("\\t");
    } else if u == 0x0a {
        proof {
            reveal_strlit("\\n");
            assert("\\n"@ =~= json_escape_char(c));
        }
        out.append("\\n");
    } else if u == 0x0c {
        proof {
            reveal_strlit("\\f");
            assert("\\f"@ =~= json_escape_char(c));
        }
        out.append("\\f");
    } else if u == 0x0d {
        proof {
            reveal_strlit("\\r");
            assert("\\r"@ =~= json_escape_char(c));
        }
        out.append("\\r");
    } else if u < 0x20 {
        proof {
            reveal_strlit("\\u00");
        }
        out.append("\\u00");
        append_digit(out, u / 16);
        append_digit(out, u % 16);
        proof {
            assert(final(out)@ =~= old(out)@ + json_escape_char(c));
        }
    } else {
        out.append(s.substring_char(i, i + 1));
        proof {
            assert(s@.subrange(i as int, i as int + 1) =~= seq![s@[i as int]]);
            assert(final(out)@ =~= old(out)@ + json_escape_char(c));
        }
    }
}

/// Appends the JSON escape of the whole of `s`.
fn append_json_escaped(out: &mut String, s: &str)
    ensures
        final(out)@ == old(out)@ + json_escape(s@),
{
    let n = s.unicode_len();
    let mut i: usize = 0;
    proof {
        assert(s@.take(0) =~= Seq::<char>::empty());
        assert(old(out)@ + json_escape(s@.take(0)) =~= old(out)@);
    }
    while i < n
        invariant
            n == s@.len(),
            i <= n,
            out@ == old(out)@ + json_escape(s@.take(i as int)),
        decreases n - i,
    {
        proof {
            lemma_json_escape_snoc(s@, i as int);
            assert((old(out)@ + json_escape(s@.take(i as int))) + json_escape_char(s@[i as int])
                =~= old(out)@ + (json_escape(s@.take(i as int)) + json_escape_char(s@[i as int])));
        }
        append_escaped_char(out, s, i);
        i = i + 1;
    }
    proof {
        assert(s@.take(n as int) =~= s@);
    }
}

/// Appends the JSON object for one entry.
fn append_entry(out: &mut String, e: &HistoryEntry)
    ensures
        final(out)@ == old(out)@ + entry_json(*e),
{
    out.append("{\"file_content\":\"");
    append_json_escaped(out, e.file_content.as_str());
    out.append("\",\"file_name\":\"");
    append_json_escaped(out, e.file_name.as_str());
    out.append("\",\"file_operation\":\"");
    append_json_escaped(out, e.file_operation.as_str());
    out.append("\",\"step\":");
    append_dec(out, e.step);
    out.append("}");
    proof {
        assert(final(out)@ =~= old(out)@ + entry_json(*e));
    }
}

/// Serializes the accumulated history and the output-root tag to the single
/// structured text the artifact holds.
pub fn history_to_json(dir: &str, entries: &Vec<HistoryEntry>) -> (r: String)
    ensures
        r@ == history_json_spec(dir@, entries@),
{
    let mut out = String::new();
    out.append("{\"app_directory\":\"");
    append_json_escaped(&mut out, dir);
    out.append("\",\"iterations\":[");
    let ghost header = out@;
    let mut i: usize = 0;
    proof {
        assert(entries@.take(0) =~= Seq::<HistoryEntry>::empty());
    }
    while i < entries.len()
        invariant
            i <= entries@.len(),
            out@ == header + entries_json(entries@.take(i as int)),
        decreases entries@.len() - i,
    {
        if i > 0 {
            proof {
                reveal_strlit(",");
            }
            out.append(",");
        }
        append_entry(&mut out, &entries[i]);
        proof {
            let done = entries@.take(i as int);
            let e = entries@[i as int];
            lemma_entries_json_push(done, e);
            assert(done.push(e) =~= entries@.take(i as int + 1));
            assert(entries_json(seq![e]) == entry_json(e));
            if i > 0 {
                assert(((header + entries_json(done)) + ","@) + entry_json(e) =~= header + (
                entries_json(done) + seq![','] + entries_json(seq![e])));
            } else {
                assert(done.len() == 0);
                assert(entries_json(done) =~= Seq::<char>::empty());
                assert((header + entries_json(done)) + entry_json(e) =~= header + entries_json(
                    done.push(e),
                ));
            }
        }
        i = i + 1;
    }
    out.append("]}");
    proof {
        assert(entries@.take(entries@.len() as int) =~= entries@);
        assert(out@ =~= history_json_spec(dir@, entries@));
    }
    out
}

} // verus!
