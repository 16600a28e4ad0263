//! Addresses with parameters.

use vstd::prelude::*;
use crate::text::{append_chars, chars_of, string_of, texts_of};

verus! {

/// The parameters `params`, each a key and a value, as mathematics sees
/// them.
pub open spec fn param_views(params: Seq<(String, String)>) -> Seq<(Seq<char>, Seq<char>)> {
    Seq::new(params.len(), |i: int| (params[i].0@, params[i].1@))
}

/// The parameters `params` as they stand in an address: `key=value` for
/// each of the first `n`, with `&` between each two.
pub open spec fn query_text(params: Seq<(Seq<char>, Seq<char>)>, n: nat) -> Seq<char>
    decreases n,
{
    if n == 0 || n > params.len() {
        seq![]
    } else if n == 1 {
        params[0].0 + seq!['='] + params[0].1
    } else {
        query_text(params, (n - 1) as nat) + seq!['&'] + params[n - 1].0 + seq!['=']
            + params[n - 1].1
    }
}

/// The address `base` with the parameters `params`: the base, `?`, and the
/// parameters.
pub open spec fn url_text(base: Seq<char>, params: Seq<(Seq<char>, Seq<char>)>) -> Seq<char> {
    base + seq!['?'] + query_text(params, params.len())
}

/// Builds the address `base` with the parameters `params`.
pub fn build_url(base: &str, params: Vec<(String, String)>) -> (r: String)
    ensures
        r@ == url_text(base@, param_views(params@)),
{
    let mut res = chars_of(base);
    res.push('?');
    let mut index: usize = 0;
    let ghost views = param_views(params@);
    assert(res@ =~= base@ + seq!['?'] + query_text(views, 0));
    while index < params.len()
        invariant
            index <= params.len(),
            views == param_views(params@),
            res@ == base@ + seq!['?'] + query_text(views, index as nat),
        decreases params.len() - index,
    {
        if index != 0 {
            res.push('&');
        }
        let key = chars_of(params[index].0.as_str());
        let value = chars_of(params[index].1.as_str());
        append_chars(&mut res, key.as_slice());
        res.push('=');
        append_chars(&mut res, value.as_slice());
        assert(views[index as int] == (params@[index as int].0@, params@[index as int].1@));
        assert(res@ =~= base@ + seq!['?'] + query_text(views, (index + 1) as nat));
        index += 1;
    }
    string_of(res.as_slice())
}

/// The first `n` texts of `data` with `,` between each two.
pub open spec fn list_text(data: Seq<Seq<char>>, n: nat) -> Seq<char>
    decreases n,
{
    if n == 0 || n > data.len() {
        seq![]
    } else if n == 1 {
        data[0]
    } else {
        list_text(data, (n - 1) as nat) + seq![','] + data[n - 1]
    }
}

/// The texts of `data` as one parameter: with `,` between each two.
pub fn parameterise_list(data: Vec<String>) -> (r: String)
    ensures
        r@ == list_text(texts_of(data@), data@.len()),
{
    let mut res: Vec<char> = Vec::new();
    let mut index: usize = 0;
    let ghost texts = texts_of(data@);
    while index < data.len()
        invariant
            index <= data.len(),
            texts == texts_of(data@),
            res@ == list_text(texts, index as nat),
        decreases data.len() - index,
    {
        if index != 0 {
            res.push(',');
        }
        let item = chars_of(data[index].as_str());
        append_chars(&mut res, item.as_slice());
        assert(texts[index as int] == data@[index as int]@);
        assert(res@ =~= list_text(texts, (index + 1) as nat));
        index += 1;
    }
    string_of(res.as_slice())
}

} // verus!
