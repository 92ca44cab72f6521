use crate::scripts::raw_validator_script::plutus_data::{
    lemma_array_view, lemma_constr_view, lemma_map_view, pair_views, views, BigInt, Constr,
    Data, IntModel, PlutusData,
};
use vstd::prelude::*;

verus! {

broadcast use {vstd::std_specs::vec::axiom_vec_index_decreases, vstd::seq::axiom_seq_index_decreases};


/// The text of one decimal digit.
pub open spec fn digit_text(d: nat) -> Seq<char> {
    if d == 0 {
        "0"@
    } else if d == 1 {
        "1"@
    } else if d == 2 {
        "2"@
    } else if d == 3 {
        "3"@
    } else if d == 4 {
        "4"@
    } else if d == 5 {
        "5"@
    } else if d == 6 {
        "6"@
    } else if d == 7 {
        "7"@
    } else if d == 8 {
        "8"@
    } else {
        "9"@
    }
}

/// The decimal text of `n`, with no leading zeros.
pub open spec fn decimal_text(n: nat) -> Seq<char>
    decreases n,
{
    if n < 10 {
        digit_text(n)
    } else {
        decimal_text(n / 10) + digit_text(n % 10)
    }
}

/// The texts of `items`, with `", "` between each two.
pub open spec fn joined(items: Seq<Seq<char>>) -> Seq<char>
    decreases items.len(),
{
    if items.len() == 0 {
        Seq::empty()
    } else if items.len() == 1 {
        items[0]
    } else {
        joined(items.drop_last()) + ", "@ + items.last()
    }
}

/// How a byte string is written: its bytes in decimal, in brackets.
pub open spec fn bytes_text(b: Seq<u8>) -> Seq<char> {
    "["@ + joined(b.map_values(|x: u8| decimal_text(x as nat))) + "]"@
}

/// How a `BigInt` is written.
pub open spec fn int_text(b: IntModel) -> Seq<char> {
    match b {
        IntModel::Int { neg, val } => "Int { neg: "@ + (if neg {
            "true"@
        } else {
            "false"@
        }) + ", val: "@ + decimal_text(val as nat) + " }"@,
        IntModel::BigUInt(b) => "BigUInt("@ + bytes_text(b) + ")"@,
        IntModel::BigNInt(b) => "BigNInt("@ + bytes_text(b) + ")"@,
    }
}

/// How an optional constructor number is written.
pub open spec fn option_text(o: Option<u64>) -> Seq<char> {
    match o {
        None => "None"@,
        Some(x) => "Some("@ + decimal_text(x as nat) + ")"@,
    }
}

/// The debug text of a Plutus data value: each variant by its name with its
/// contents in round brackets, a constructor as a struct with its fields, a
/// map as `{key: value, ..}` and a list as `[item, ..]`.
pub open spec fn data_text(d: Data) -> Seq<char>
    decreases d, 0int,
{
    match d {
        Data::Constr { tag, any_constructor, fields } => "Constr(Constr { tag: "@ + decimal_text(
            tag as nat,
        ) + ", any_constructor: "@ + option_text(any_constructor) + ", fields: ["@ + joined(
            item_texts(fields, fields.len() as int),
        ) + "] })"@,
        Data::DataMap(entries) => "Map({"@ + joined(entry_texts(entries, entries.len() as int))
            + "})"@,
        Data::Int(b) => "BigInt("@ + int_text(b) + ")"@,
        Data::Bytes(b) => "BoundedBytes("@ + bytes_text(b) + ")"@,
        Data::Array(items) => "Array(["@ + joined(item_texts(items, items.len() as int)) + "])"@,
    }
}

/// The debug texts of the first `n` items.
pub open spec fn item_texts(items: Seq<Data>, n: int) -> Seq<Seq<char>>
    decreases items, n,
{
    if n <= 0 || n > items.len() {
        Seq::empty()
    } else {
        item_texts(items, n - 1).push(data_text(items[n - 1]))
    }
}

/// The debug texts, `key: value`, of the first `n` entries of a map.
pub open spec fn entry_texts(entries: Seq<(Data, Data)>, n: int) -> Seq<Seq<char>>
    decreases entries, n,
{
    if n <= 0 || n > entries.len() {
        Seq::empty()
    } else {
        entry_texts(entries, n - 1).push(
            data_text(entries[n - 1].0) + ": "@ + data_text(entries[n - 1].1),
        )
    }
}

/// The text of the digit `d`.
fn digit_str(d: u64) -> (r: &'static str)
    requires
        d < 10,
    ensures
        r@ == digit_text(d as nat),
{
    if d == 0 {
        "0"
    } else if d == 1 {
        "1"
    } else if d == 2 {
        "2"
    } else if d == 3 {
        "3"
    } else if d == 4 {
        "4"
    } else if d == 5 {
        "5"
    } else if d == 6 {
        "6"
    } else if d == 7 {
        "7"
    } else if d == 8 {
        "8"
    } else {
        "9"
    }
}

/// Writes `n` in decimal.
fn write_decimal(n: u64, out: &mut String)
    ensures
        final(out)@ == old(out)@ + decimal_text(n as nat),
    decreases n,
{
    if n >= 10 {
        write_decimal(n / 10, out);
    }
    out.append(digit_str(n % 10));
    proof {
        if n >= 10 {
            assert(old(out)@ + decimal_text((n / 10) as nat) + digit_text((n % 10) as nat)
                =~= old(out)@ + decimal_text(n as nat));
        } else {
            assert(old(out)@ + digit_text((n % 10) as nat) =~= old(out)@ + decimal_text(n as nat));
        }
    }
}

proof fn lemma_joined_push(items: Seq<Seq<char>>, next: Seq<char>)
    ensures
        joined(items.push(next)) == if items.len() == 0 {
            next
        } else {
            joined(items) + ", "@ + next
        },
{
    assert(items.push(next).drop_last() =~= items);
}

/// Writes a byte string as `[b, ..]`.
fn write_bytes(b: &Vec<u8>, out: &mut String)
    ensures
        final(out)@ == old(out)@ + bytes_text(b@),
{
    let ghost texts = b@.map_values(|x: u8| decimal_text(x as nat));
    out.append("[");
    let mut i: usize = 0;
    while i < b.len()
        invariant
            i <= b@.len(),
            texts == b@.map_values(|x: u8| decimal_text(x as nat)),
            out@ == old(out)@ + "["@ + joined(texts.take(i as int)),
        decreases b.len() - i,
    {
        let ghost before = out@;
        if i > 0 {
            out.append(", ");
        }
        write_decimal(b[i] as u64, out);
        proof {
            assert(texts.take(i + 1) =~= texts.take(i as int).push(texts[i as int]));
            lemma_joined_push(texts.take(i as int), texts[i as int]);
        }
        assert(out@ =~= old(out)@ + "["@ + joined(texts.take(i + 1)));
        i = i + 1;
    }
    out.append("]");
    assert(texts.take(i as int) =~= texts);
    assert(out@ =~= old(out)@ + bytes_text(b@));
}

/// Writes a `BigInt`.
fn write_int(b: &BigInt, out: &mut String)
    ensures
        final(out)@ == old(out)@ + int_text(b@),
{
    match b {
        BigInt::Int { neg, val } => {
            out.append("Int { neg: ");
            if *neg {
                out.append("true");
            } else {
                out.append("false");
            }
            out.append(", val: ");
            write_decimal(*val, out);
            out.append(" }");
        },
        BigInt::BigUInt(bytes) => {
            out.append("BigUInt(");
            write_bytes(bytes, out);
            out.append(")");
        },
        BigInt::BigNInt(bytes) => {
            out.append("BigNInt(");
            write_bytes(bytes, out);
            out.append(")");
        },
    }
    assert(out@ =~= old(out)@ + int_text(b@));
}

/// Writes the debug text of a constructor application.
#[verifier::loop_isolation(false)]
fn write_constr(c: &Constr<PlutusData>, out: &mut String)
    ensures
        final(out)@ == old(out)@ + data_text(PlutusData::Constr(*c)@),
    decreases c,
{
    let ghost start = out@;
    proof {
        lemma_constr_view(*c);
    }
    let ghost fields = views(c.fields@);
    out.append("Constr(Constr { tag: ");
    write_decimal(c.tag, out);
    out.append(", any_constructor: ");
    match c.any_constructor {
        None => out.append("None"),
        Some(x) => {
            out.append("Some(");
            write_decimal(x, out);
            out.append(")");
        },
    }
    out.append(", fields: [");
    let ghost head = out@;
    let mut i: usize = 0;
    while i < c.fields.len()
        invariant
            i <= c.fields@.len(),
            fields == views(c.fields@),
            out@ == head + joined(item_texts(fields, i as int)),
        decreases c.fields.len() - i,
    {
        proof {
            vstd::std_specs::vec::axiom_vec_index_decreases(c.fields, i as int);
        }
        if i > 0 {
            out.append(", ");
        }
        write_data(&c.fields[i], out);
        proof {
            lemma_joined_push(item_texts(fields, i as int), data_text(fields[i as int]));
        }
        assert(out@ =~= head + joined(item_texts(fields, i + 1)));
        i = i + 1;
    }
    out.append("] })");
    assert(out@ =~= start + data_text(PlutusData::Constr(*c)@));
}

/// Writes the debug text of a map.
#[verifier::loop_isolation(false)]
fn write_map(m: &Vec<(PlutusData, PlutusData)>, out: &mut String)
    ensures
        final(out)@ == old(out)@ + data_text(PlutusData::DataMap(*m)@),
    decreases m,
{
    let ghost start = out@;
    proof {
        lemma_map_view(*m);
    }
    let ghost entries = pair_views(m@);
    out.append("Map({");
    let ghost head = out@;
    let mut i: usize = 0;
    while i < m.len()
        invariant
            i <= m@.len(),
            entries == pair_views(m@),
            out@ == head + joined(entry_texts(entries, i as int)),
        decreases m.len() - i,
    {
        proof {
            vstd::std_specs::vec::axiom_vec_index_decreases(*m, i as int);
        }
        if i > 0 {
            out.append(", ");
        }
        write_data(&m[i].0, out);
        out.append(": ");
        write_data(&m[i].1, out);
        proof {
            lemma_joined_push(
                entry_texts(entries, i as int),
                data_text(entries[i as int].0) + ": "@ + data_text(entries[i as int].1),
            );
        }
        assert(out@ =~= head + joined(entry_texts(entries, i + 1)));
        i = i + 1;
    }
    out.append("})");
    assert(out@ =~= start + data_text(PlutusData::DataMap(*m)@));
}

/// Writes the debug text of a list.
#[verifier::loop_isolation(false)]
fn write_array(a: &Vec<PlutusData>, out: &mut String)
    ensures
        final(out)@ == old(out)@ + data_text(PlutusData::Array(*a)@),
    decreases a,
{
    let ghost start = out@;
    proof {
        lemma_array_view(*a);
    }
    let ghost items = views(a@);
    out.append("Array([");
    let ghost head = out@;
    let mut i: usize = 0;
    while i < a.len()
        invariant
            i <= a@.len(),
            items == views(a@),
            out@ == head + joined(item_texts(items, i as int)),
        decreases a.len() - i,
    {
        proof {
            vstd::std_specs::vec::axiom_vec_index_decreases(*a, i as int);
        }
        if i > 0 {
            out.append(", ");
        }
        write_data(&a[i], out);
        proof {
            lemma_joined_push(item_texts(items, i as int), data_text(items[i as int]));
        }
        assert(out@ =~= head + joined(item_texts(items, i + 1)));
        i = i + 1;
    }
    out.append("])");
    assert(out@ =~= start + data_text(PlutusData::Array(*a)@));
}

/// Writes the debug text of `d`.
fn write_data(d: &PlutusData, out: &mut String)
    ensures
        final(out)@ == old(out)@ + data_text(d@),
    decreases d,
{
    let ghost start = out@;
    match d {
        PlutusData::Constr(c) => write_constr(c, out),
        PlutusData::DataMap(m) => write_map(m, out),
        PlutusData::BigInt(b) => {
            out.append("BigInt(");
            write_int(b, out);
            out.append(")");
            assert(out@ =~= start + data_text(d@));
        },
        PlutusData::BoundedBytes(b) => {
            out.append("BoundedBytes(");
            write_bytes(b, out);
            out.append(")");
            assert(out@ =~= start + data_text(d@));
        },
        PlutusData::Array(a) => write_array(a, out),
    }
}

impl PlutusData {
    /// The debug text of the value (see `data_text`).
    pub fn debug_text(&self) -> (r: String)
        ensures
            r@ == data_text(self@),
    {
        let mut out = String::new();
        write_data(self, &mut out);
        out
    }
}

} // verus!
