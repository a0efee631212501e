//! The canonical ordering of a certification's properties.
//!
//! Every stage of the protocol aligns its vectors to one deterministic
//! sequencing of property names: the public property names sorted
//! lexicographically, then the private property names sorted
//! lexicographically. Properties whose measured value is not numeric are
//! excluded. The ordering depends only on which names are present, never
//! on the enumeration order of the underlying mappings.

use vstd::prelude::*;
use vstd::relations::sorted_by;
use vstd::seq_lib::lemma_sorted_unique;
use crate::lex::{lex_le, lex_leq, lemma_lex_le_refl, lemma_lex_le_total, lemma_lex_le_trans,
    lemma_lex_total_ordering};
use crate::types::{unique_names, MaterialCertification, MeasuredValue, NamedProperty};

verus! {

broadcast use {vstd::seq_lib::group_to_multiset_ensures, vstd::multiset::group_multiset_axioms};

/// The character sequences of a vector of names.
pub open spec fn name_views(v: Seq<String>) -> Seq<Seq<char>> {
    v.map_values(|s: String| s@)
}

/// Whether a property takes part in the protocol: only numeric values are
/// evaluated against thresholds.
pub open spec fn is_numeric(p: NamedProperty) -> bool {
    p.value.value is Number
}

/// The names of the numeric-valued properties, in enumeration order.
pub open spec fn numeric_names(props: Seq<NamedProperty>) -> Seq<Seq<char>> {
    props.filter(|p: NamedProperty| is_numeric(p)).map_values(|p: NamedProperty| p.name@)
}

/// A name drawn from `numeric_names(props)` designates a property of
/// `props` whose value is numeric.
pub proof fn lemma_numeric_names_sound(props: Seq<NamedProperty>, n: Seq<char>)
    requires
        numeric_names(props).contains(n),
    ensures
        exists|k: int|
            0 <= k < props.len() && (#[trigger] props[k]).name@ == n && is_numeric(props[k]),
    decreases props.len(),
{
    reveal(Seq::filter);
    let pred = |p: NamedProperty| is_numeric(p);
    if props.len() == 0 {
    } else {
        let prefix = props.drop_last();
        if pred(props.last()) {
            assert(numeric_names(props) =~= numeric_names(prefix).push(props.last().name@));
        } else {
            assert(numeric_names(props) =~= numeric_names(prefix));
        }
        if numeric_names(prefix).contains(n) {
            lemma_numeric_names_sound(prefix, n);
            let k = choose|k: int|
                0 <= k < prefix.len() && (#[trigger] prefix[k]).name@ == n && is_numeric(prefix[k]);
            assert(props[k].name@ == n && is_numeric(props[k]));
        } else {
            assert(props.last().name@ == n && is_numeric(props.last()));
            assert(props[props.len() - 1].name@ == n);
        }
    }
}

/// One entry of the canonical ordering: a property name and its privacy.
pub struct OrderedEntry {
    pub name: String,
    pub is_private: bool,
}

impl OrderedEntry {
    /// The mathematical content of an entry.
    pub open spec fn view_pair(self) -> (Seq<char>, bool) {
        (self.name@, self.is_private)
    }
}

/// The canonical ordering of a certification: sorted public names flagged
/// public, then sorted private names flagged private.
pub open spec fn canonical_entries(cert: MaterialCertification) -> Seq<(Seq<char>, bool)> {
    numeric_names(cert.properties_tested.public_properties@).sort_by(lex_leq()).map_values(
        |n: Seq<char>| (n, false),
    ) + numeric_names(cert.properties_tested.private_properties@).sort_by(lex_leq()).map_values(
        |n: Seq<char>| (n, true),
    )
}

/// Collects the names of the numeric-valued properties, in enumeration
/// order.
fn numeric_names_exec(props: &Vec<NamedProperty>) -> (r: Vec<String>)
    ensures
        name_views(r@) == numeric_names(props@),
{
    let mut r: Vec<String> = Vec::new();
    proof {
        reveal(Seq::filter);
        assert(name_views(r@) =~= numeric_names(props@.take(0)));
    }
    let mut i: usize = 0;
    while i < props.len()
        invariant
            i <= props@.len(),
            name_views(r@) == numeric_names(props@.take(i as int)),
        decreases props@.len() - i,
    {
        let ghost prefix = props@.take(i as int);
        let ghost next = props@.take(i as int + 1);
        proof {
            reveal(Seq::filter);
            assert(next.drop_last() =~= prefix);
            assert(next.last() == props@[i as int]);
        }
        match props[i].value.value {
            MeasuredValue::Number(_) => {
                let name = props[i].name.clone();
                let ghost old_r = r@;
                r.push(name);
                proof {
                    assert(next.filter(|p: NamedProperty| is_numeric(p)) == prefix.filter(
                        |p: NamedProperty| is_numeric(p),
                    ).push(props@[i as int]));
                    assert(name_views(r@) =~= name_views(old_r).push(props@[i as int].name@));
                    assert(numeric_names(next) =~= numeric_names(prefix).push(
                        props@[i as int].name@,
                    ));
                    assert(name_views(r@) =~= numeric_names(next));
                }
            },
            MeasuredValue::Other => {
                proof {
                    assert(next.filter(|p: NamedProperty| is_numeric(p)) == prefix.filter(
                        |p: NamedProperty| is_numeric(p),
                    ));
                    assert(name_views(r@) =~= numeric_names(next));
                }
            },
        }
        i += 1;
    }
    proof {
        assert(props@.take(props@.len() as int) =~= props@);
    }
    r
}

/// Sorts a vector of names into the lexicographic order of the standard
/// proof library's `sort_by`.
fn sort_names(input: Vec<String>) -> (r: Vec<String>)
    ensures
        name_views(r@) == name_views(input@).sort_by(lex_leq()),
{
    let ghost orig: Seq<Seq<char>> = name_views(input@);
    let mut rest = input;
    let mut out: Vec<String> = Vec::new();
    proof {
        assert(name_views(out@) =~= Seq::<Seq<char>>::empty());
        assert(name_views(out@).to_multiset().add(name_views(rest@).to_multiset())
            =~= orig.to_multiset());
    }
    while rest.len() > 0
        invariant
            sorted_by(name_views(out@), lex_leq()),
            name_views(out@).to_multiset().add(name_views(rest@).to_multiset())
                == orig.to_multiset(),
            forall|x: int, y: int|
                0 <= x < out@.len() && 0 <= y < rest@.len() ==> lex_le(out@[x]@, rest@[y]@),
        decreases rest@.len(),
    {
        let mut min_i: usize = 0;
        let mut k: usize = 1;
        proof {
            lemma_lex_le_refl(rest@[0]@);
        }
        while k < rest.len()
            invariant
                rest@.len() > 0,
                min_i < k,
                k <= rest@.len(),
                forall|j: int| 0 <= j < k ==> lex_le(rest@[min_i as int]@, rest@[j]@),
            decreases rest@.len() - k,
        {
            if str_lex_le_strings(&rest[k], &rest[min_i]) {
                proof {
                    assert forall|j: int| 0 <= j < k + 1 implies lex_le(
                        rest@[k as int]@,
                        rest@[j]@,
                    ) by {
                        if j < k {
                            lemma_lex_le_trans(rest@[k as int]@, rest@[min_i as int]@, rest@[j]@);
                        } else {
                            lemma_lex_le_refl(rest@[k as int]@);
                        }
                    }
                }
                min_i = k;
            } else {
                proof {
                    lemma_lex_le_total(rest@[k as int]@, rest@[min_i as int]@);
                }
            }
            k += 1;
        }
        let ghost old_out = out@;
        let ghost old_rest = rest@;
        let s = rest.remove(min_i);
        out.push(s);
        proof {
            let leq = lex_leq();
            let ghost sv = old_rest[min_i as int]@;
            assert(name_views(out@) =~= name_views(old_out).push(sv));
            assert(name_views(rest@) =~= name_views(old_rest).remove(min_i as int));
            // The element views follow the vector operations.
            assert(name_views(old_rest)[min_i as int] == sv);
            assert(name_views(out@).to_multiset() =~= name_views(old_out).to_multiset().insert(
                sv,
            ));
            assert(name_views(rest@).to_multiset() =~= name_views(old_rest).to_multiset().remove(
                sv,
            ));
            assert(name_views(old_rest).to_multiset().contains(sv)) by {
                assert(name_views(old_rest)[min_i as int] == sv);
                assert(name_views(old_rest).contains(sv));
            }
            assert(name_views(out@).to_multiset().add(name_views(rest@).to_multiset())
                =~= name_views(old_out).to_multiset().add(name_views(old_rest).to_multiset()));
            // The appended minimum keeps the output sorted.
            assert forall|x: int, y: int|
                0 <= x < y < name_views(out@).len() implies leq(
                name_views(out@)[x],
                name_views(out@)[y],
            ) by {
                if y < old_out.len() {
                    assert(leq(name_views(old_out)[x], name_views(old_out)[y]));
                } else {
                    assert(name_views(out@)[y] == sv);
                    assert(lex_le(old_out[x]@, old_rest[min_i as int]@));
                }
            }
            // Everything already placed stays below everything remaining.
            assert forall|x: int, y: int|
                0 <= x < out@.len() && 0 <= y < rest@.len() implies lex_le(
                out@[x]@,
                rest@[y]@,
            ) by {
                let y_old: int = if y < min_i { y } else { y + 1 };
                assert(rest@[y] == old_rest[y_old]);
                if x < old_out.len() {
                    assert(lex_le(old_out[x]@, old_rest[y_old]@));
                } else {
                    assert(out@[x]@ == sv);
                    assert(lex_le(old_rest[min_i as int]@, old_rest[y_old]@));
                }
            }
        }
    }
    proof {
        assert(name_views(rest@) =~= Seq::<Seq<char>>::empty());
        assert(name_views(out@).to_multiset() =~= orig.to_multiset());
        lemma_lex_total_ordering();
        orig.lemma_sort_by_ensures(lex_leq());
        lemma_sorted_unique(name_views(out@), orig.sort_by(lex_leq()), lex_leq());
        assert(name_views(out@) =~= orig.sort_by(lex_leq()));
    }
    out
}

/// Lexicographic comparison on owned strings.
fn str_lex_le_strings(a: &String, b: &String) -> (r: bool)
    ensures
        r == lex_le(a@, b@),
{
    crate::lex::str_lex_le(a.as_str(), b.as_str())
}


/// With unique property names, the numeric names hold no duplicates.
pub proof fn lemma_numeric_names_no_duplicates(props: Seq<NamedProperty>)
    requires
        unique_names(props),
    ensures
        numeric_names(props).no_duplicates(),
    decreases props.len(),
{
    reveal(Seq::filter);
    let pred = |p: NamedProperty| is_numeric(p);
    if props.len() == 0 {
        assert(numeric_names(props) =~= Seq::<Seq<char>>::empty());
    } else {
        let prefix = props.drop_last();
        assert(unique_names(prefix)) by {
            assert(forall|i: int| 0 <= i < prefix.len() ==> prefix[i] == props[i]);
        }
        lemma_numeric_names_no_duplicates(prefix);
        if pred(props.last()) {
            assert(numeric_names(props) =~= numeric_names(prefix).push(props.last().name@));
            assert(!numeric_names(prefix).contains(props.last().name@)) by {
                if numeric_names(prefix).contains(props.last().name@) {
                    lemma_numeric_names_sound(prefix, props.last().name@);
                    let k = choose|k: int|
                        0 <= k < prefix.len() && (#[trigger] prefix[k]).name@
                            == props.last().name@ && is_numeric(prefix[k]);
                    assert(props[k].name@ == props[props.len() - 1].name@);
                    assert(false);
                }
            }
            let nn = numeric_names(prefix);
            let full = nn.push(props.last().name@);
            assert forall|i: int, j: int| 0 <= i < j < full.len() implies full[i] != full[j] by {
                if j < full.len() - 1 {
                    assert(full[i] == nn[i] && full[j] == nn[j]);
                } else {
                    assert(full[i] == nn[i]);
                    assert(nn.contains(nn[i]));
                }
            }
        } else {
            assert(numeric_names(props) =~= numeric_names(prefix));
        }
    }
}

/// Sorting a duplicate-free name sequence keeps it duplicate-free.
proof fn lemma_sorted_names_no_duplicates(names: Seq<Seq<char>>)
    requires
        names.no_duplicates(),
    ensures
        names.sort_by(lex_leq()).no_duplicates(),
{
    lemma_lex_total_ordering();
    names.lemma_sort_by_ensures(lex_leq());
    names.lemma_multiset_has_no_duplicates();
    let sorted = names.sort_by(lex_leq());
    assert(forall|x: Seq<char>|
        sorted.to_multiset().contains(x) ==> sorted.to_multiset().count(x) == 1);
    sorted.lemma_multiset_has_no_duplicates_conv();
}

/// A sorted name is a numeric name of the mapping it was drawn from.
proof fn lemma_sorted_name_origin(names: Seq<Seq<char>>, i: int)
    requires
        0 <= i < names.sort_by(lex_leq()).len(),
    ensures
        names.contains(names.sort_by(lex_leq())[i]),
{
    lemma_lex_total_ordering();
    names.lemma_sort_by_ensures(lex_leq());
    let sorted = names.sort_by(lex_leq());
    assert(sorted.contains(sorted[i]));
    assert(sorted.to_multiset().contains(sorted[i]));
}

/// The canonical ordering never names a property twice: within each
/// sorted block the names are unique, and no name is both public and
/// private.
pub proof fn lemma_canonical_names_unique(cert: MaterialCertification)
    requires
        cert.wf(),
    ensures
        forall|i: int, j: int|
            0 <= i < j < canonical_entries(cert).len() ==> (#[trigger] canonical_entries(cert)[i]).0
                != (#[trigger] canonical_entries(cert)[j]).0,
{
    let pub_nn = numeric_names(cert.properties_tested.public_properties@);
    let priv_nn = numeric_names(cert.properties_tested.private_properties@);
    let leq = lex_leq();
    let ps = pub_nn.sort_by(leq);
    let qs = priv_nn.sort_by(leq);
    lemma_numeric_names_no_duplicates(cert.properties_tested.public_properties@);
    lemma_numeric_names_no_duplicates(cert.properties_tested.private_properties@);
    lemma_sorted_names_no_duplicates(pub_nn);
    lemma_sorted_names_no_duplicates(priv_nn);
    let ce = canonical_entries(cert);
    assert forall|i: int, j: int| 0 <= i < j < ce.len() implies (#[trigger] ce[i]).0 != (
    #[trigger] ce[j]).0 by {
        if j < ps.len() {
            assert(ce[i].0 == ps[i] && ce[j].0 == ps[j]);
        } else if i >= ps.len() {
            assert(ce[i].0 == qs[i - ps.len()] && ce[j].0 == qs[j - ps.len()]);
        } else {
            assert(ce[i].0 == ps[i] && ce[j].0 == qs[j - ps.len()]);
            if ce[i].0 == ce[j].0 {
                lemma_sorted_name_origin(pub_nn, i);
                lemma_numeric_names_sound(cert.properties_tested.public_properties@, ps[i]);
                lemma_sorted_name_origin(priv_nn, j - ps.len());
                lemma_numeric_names_sound(
                    cert.properties_tested.private_properties@,
                    qs[j - ps.len()],
                );
                assert(crate::types::has_name(cert.properties_tested.public_properties@, ps[i]));
                assert(crate::types::has_name(
                    cert.properties_tested.private_properties@,
                    qs[j - ps.len()],
                ));
                assert(false);
            }
        }
    }
}

/// Computes the canonical ordering of a certification.
///
/// The result is determined by the sets of numeric property names alone:
/// any two certifications whose mappings hold the same names and values,
/// in whatever enumeration order, receive the same ordering.
pub fn canonical_order(cert: &MaterialCertification) -> (r: Vec<OrderedEntry>)
    ensures
        r@.map_values(|e: OrderedEntry| e.view_pair()) == canonical_entries(*cert),
{
    let public_names = numeric_names_exec(&cert.properties_tested.public_properties);
    let private_names = numeric_names_exec(&cert.properties_tested.private_properties);
    let public_sorted = sort_names(public_names);
    let private_sorted = sort_names(private_names);
    let ghost pub_part = name_views(public_sorted@).map_values(|n: Seq<char>| (n, false));
    let ghost priv_part = name_views(private_sorted@).map_values(|n: Seq<char>| (n, true));
    let mut r: Vec<OrderedEntry> = Vec::new();
    let mut i: usize = 0;
    proof {
        assert(r@.map_values(|e: OrderedEntry| e.view_pair()) =~= pub_part.take(0));
    }
    while i < public_sorted.len()
        invariant
            i <= public_sorted@.len(),
            pub_part.len() == public_sorted@.len(),
            pub_part == name_views(public_sorted@).map_values(|n: Seq<char>| (n, false)),
            r@.map_values(|e: OrderedEntry| e.view_pair()) == pub_part.take(i as int),
        decreases public_sorted@.len() - i,
    {
        let name = public_sorted[i].clone();
        let ghost old_r = r@;
        r.push(OrderedEntry { name, is_private: false });
        proof {
            assert(r@.map_values(|e: OrderedEntry| e.view_pair()) =~= old_r.map_values(
                |e: OrderedEntry| e.view_pair(),
            ).push((public_sorted@[i as int]@, false)));
            assert(pub_part[i as int] == (public_sorted@[i as int]@, false));
            assert(pub_part.take(i as int + 1) =~= pub_part.take(i as int).push(
                pub_part[i as int],
            ));
            assert(r@.map_values(|e: OrderedEntry| e.view_pair()) =~= pub_part.take(i as int + 1));
        }
        i += 1;
    }
    proof {
        assert(pub_part.take(pub_part.len() as int) =~= pub_part);
    }
    let mut j: usize = 0;
    while j < private_sorted.len()
        invariant
            j <= private_sorted@.len(),
            priv_part.len() == private_sorted@.len(),
            priv_part == name_views(private_sorted@).map_values(|n: Seq<char>| (n, true)),
            r@.map_values(|e: OrderedEntry| e.view_pair()) == pub_part + priv_part.take(j as int),
        decreases private_sorted@.len() - j,
    {
        let name = private_sorted[j].clone();
        let ghost old_r = r@;
        r.push(OrderedEntry { name, is_private: true });
        proof {
            assert(r@.map_values(|e: OrderedEntry| e.view_pair()) =~= old_r.map_values(
                |e: OrderedEntry| e.view_pair(),
            ).push((private_sorted@[j as int]@, true)));
            assert(priv_part[j as int] == (private_sorted@[j as int]@, true));
            assert(priv_part.take(j as int + 1) =~= priv_part.take(j as int).push(
                priv_part[j as int],
            ));
            assert(r@.map_values(|e: OrderedEntry| e.view_pair()) =~= pub_part + priv_part.take(
                j as int + 1,
            ));
        }
        j += 1;
    }
    proof {
        assert(priv_part.take(priv_part.len() as int) =~= priv_part);
        assert(r@.map_values(|e: OrderedEntry| e.view_pair()) == canonical_entries(*cert));
    }
    r
}

} // verus!
