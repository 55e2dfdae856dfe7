//! Spec-level model of the flat JSON object texts that the wire format
//! uses.  An object is a sequence of key/value entries; the value of an
//! entry is already-rendered JSON text, which lets one object nest inside
//! another.  The encoders promise that the strings they build are exactly
//! the rendering of their entry sequences.

use vstd::prelude::*;

verus! {

/// A string value wrapped in double quotes.  The wire format performs no
/// escaping: a value containing a quote character corrupts the payload,
/// a known limit of the protocol.
pub open spec fn quoted(s: Seq<char>) -> Seq<char> {
    "\""@ + s + "\""@
}

/// A JSON boolean.
pub open spec fn bool_text(b: bool) -> Seq<char> {
    if b {
        "true"@
    } else {
        "false"@
    }
}

/// One `"key":value` entry; the value is already-rendered JSON text.
pub open spec fn entry_text(e: (Seq<char>, Seq<char>)) -> Seq<char> {
    quoted(e.0) + ":"@ + e.1
}

/// The comma-separated body of an object.
pub open spec fn entries_text(es: Seq<(Seq<char>, Seq<char>)>) -> Seq<char>
    decreases es.len(),
{
    if es.len() == 0 {
        Seq::empty()
    } else if es.len() == 1 {
        entry_text(es[0])
    } else {
        entry_text(es[0]) + ","@ + entries_text(es.drop_first())
    }
}

/// A complete object: the entries wrapped in braces.
pub open spec fn object_text(es: Seq<(Seq<char>, Seq<char>)>) -> Seq<char> {
    "{"@ + entries_text(es) + "}"@
}

/// Peeling the last entry off an object body splits the text at the
/// final comma.
pub proof fn lemma_entries_text_snoc(es: Seq<(Seq<char>, Seq<char>)>)
    requires
        es.len() >= 2,
    ensures
        entries_text(es) =~= entries_text(es.drop_last()) + ","@ + entry_text(es.last()),
    decreases es.len(),
{
    if es.len() == 2 {
        assert(es.drop_first().len() == 1);
        assert(entries_text(es.drop_first()) =~= entry_text(es[1]));
        assert(es.drop_last() =~= seq![es[0]]);
        assert(entries_text(es.drop_last()) =~= entry_text(es[0]));
    } else {
        let d = es.drop_first();
        lemma_entries_text_snoc(d);
        assert(d.drop_last() =~= es.drop_last().drop_first());
        assert(es.drop_last().len() >= 2);
        assert(es.drop_last()[0] == es[0]);
        assert(d.last() == es.last());
        assert(entries_text(es) =~= entry_text(es[0]) + ","@ + entries_text(d));
        assert(entries_text(es.drop_last()) =~= entry_text(es[0]) + ","@ + entries_text(
            es.drop_last().drop_first(),
        ));
        assert(entries_text(d) =~= entries_text(es.drop_last().drop_first()) + ","@ + entry_text(
            es.last(),
        ));
    }
}

/// Appends `s` wrapped in double quotes.
pub fn append_quoted(r: &mut String, s: &str)
    ensures
        final (r)@ == old(r)@ + quoted(s@),
{
    r.append("\"");
    r.append(s);
    r.append("\"");
    proof {
        assert(r@ =~= old(r)@ + quoted(s@));
    }
}

/// `s` wrapped in double quotes, as a fresh string.
pub fn quote_str(s: &str) -> (r: String)
    ensures
        r@ == quoted(s@),
{
    let mut r = String::new();
    append_quoted(&mut r, s);
    proof {
        assert(r@ =~= quoted(s@));
    }
    r
}

/// The literal text of a JSON boolean.
pub fn bool_str(b: bool) -> (r: &'static str)
    ensures
        r@ == bool_text(b),
{
    if b {
        "true"
    } else {
        "false"
    }
}

/// Renders an object from its entries: each pair is a key and an
/// already-rendered JSON value text.
pub fn render_object(entries: &Vec<(String, String)>) -> (r: String)
    ensures
        r@ == object_text(entries@.map_values(|e: (String, String)| (e.0@, e.1@))),
{
    let ghost es = entries@.map_values(|e: (String, String)| (e.0@, e.1@));
    let mut r = String::new();
    r.append("{");
    let n = entries.len();
    let mut i: usize = 0;
    proof {
        assert(es.take(0) =~= Seq::<(Seq<char>, Seq<char>)>::empty());
        assert(r@ =~= "{"@ + entries_text(es.take(0)));
    }
    while i < n
        invariant
            i <= n,
            n == entries@.len(),
            es == entries@.map_values(|e: (String, String)| (e.0@, e.1@)),
            r@ == "{"@ + entries_text(es.take(i as int)),
        decreases n - i,
    {
        if i > 0 {
            r.append(",");
        }
        append_quoted(&mut r, entries[i].0.as_str());
        r.append(":");
        r.append(entries[i].1.as_str());
        proof {
            assert(es[i as int] == (entries@[i as int].0@, entries@[i as int].1@));
            if i == 0 {
                assert(es.take(1).len() == 1);
                assert(entries_text(es.take(1)) =~= entry_text(es[0]));
                assert(r@ =~= "{"@ + entries_text(es.take(1)));
            } else {
                lemma_entries_text_snoc(es.take(i + 1 as int));
                assert(es.take(i + 1 as int).drop_last() =~= es.take(i as int));
                assert(es.take(i + 1 as int).last() == es[i as int]);
                assert(r@ =~= "{"@ + entries_text(es.take(i + 1 as int)));
            }
        }
        i = i + 1;
    }
    r.append("}");
    proof {
        assert(es.take(n as int) =~= es);
        assert(r@ =~= object_text(es));
    }
    r
}

} // verus!
