//! Flattening a certification into ordered numeric vectors.
//!
//! The preparer aligns four equal-length vectors to the canonical
//! ordering: measured values, minimum bounds, maximum bounds, and privacy
//! flags. A property without a threshold receives the widest possible
//! bounds, so it is compliant by definition. A certification with no
//! numeric properties yields nothing to prove and is rejected.

use vstd::prelude::*;
use crate::ordering::{canonical_entries, canonical_order, is_numeric, lemma_numeric_names_sound, numeric_names, OrderedEntry};
use crate::types::{has_name, unique_names, MaterialCertification, MeasuredValue, NamedProperty,
    PropertyValue, Threshold, VerificationError};

verus! {

/// The first property of `props` named `name`, or an unconstrained value
/// when there is none (see [`has_name`]).
pub open spec fn lookup_value(props: Seq<NamedProperty>, name: Seq<char>) -> PropertyValue
    decreases props.len(),
{
    if props.len() == 0 {
        arbitrary()
    } else if props[0].name@ == name {
        props[0].value
    } else {
        lookup_value(props.drop_first(), name)
    }
}

/// The lower bound a property is checked against: its threshold's
/// minimum, or the least representable value when it has no threshold.
pub open spec fn min_bound(pv: PropertyValue) -> int {
    match pv.threshold {
        Some(t) => t.min as int,
        None => i64::MIN as int,
    }
}

/// The upper bound a property is checked against: its threshold's
/// maximum, or the greatest representable value when it has no threshold.
pub open spec fn max_bound(pv: PropertyValue) -> int {
    match pv.threshold {
        Some(t) => t.max as int,
        None => i64::MAX as int,
    }
}

/// The numeric content of a measured value.
pub open spec fn numeric_value(pv: PropertyValue) -> int
    recommends
        pv.value is Number,
{
    match pv.value {
        MeasuredValue::Number(v) => v as int,
        MeasuredValue::Other => 0,
    }
}

/// The property behind entry `i` of the canonical ordering.
pub open spec fn entry_property(cert: MaterialCertification, i: int) -> PropertyValue {
    let e = canonical_entries(cert)[i];
    if e.1 {
        lookup_value(cert.properties_tested.private_properties@, e.0)
    } else {
        lookup_value(cert.properties_tested.public_properties@, e.0)
    }
}

/// The four ordered vectors handed to the proving environment.
pub struct PreparedInput {
    pub values: Vec<i64>,
    pub min_thresholds: Vec<i64>,
    pub max_thresholds: Vec<i64>,
    pub privacy_flags: Vec<bool>,
}

impl PreparedInput {
    /// Well-formedness: the four vectors are aligned and nonempty.
    pub open spec fn wf(self) -> bool {
        &&& self.values@.len() == self.min_thresholds@.len()
        &&& self.values@.len() == self.max_thresholds@.len()
        &&& self.values@.len() == self.privacy_flags@.len()
        &&& self.values@.len() > 0
    }

    /// The prepared vectors carry exactly the values, bounds, and privacy
    /// of the canonical ordering of `cert`.
    pub open spec fn prepared_from(self, cert: MaterialCertification) -> bool {
        &&& self.values@.len() == canonical_entries(cert).len()
        &&& self.values@.len() == self.min_thresholds@.len()
        &&& self.values@.len() == self.max_thresholds@.len()
        &&& self.values@.len() == self.privacy_flags@.len()
        &&& forall|i: int|
            0 <= i < self.values@.len() ==> self.values@[i] == numeric_value(
                #[trigger] entry_property(cert, i),
            )
        &&& forall|i: int|
            0 <= i < self.values@.len() ==> self.min_thresholds@[i] == min_bound(
                #[trigger] entry_property(cert, i),
            )
        &&& forall|i: int|
            0 <= i < self.values@.len() ==> self.max_thresholds@[i] == max_bound(
                #[trigger] entry_property(cert, i),
            )
        &&& forall|i: int|
            0 <= i < self.values@.len() ==> self.privacy_flags@[i] == (
            #[trigger] canonical_entries(cert)[i]).1
    }
}

/// With unique names, looking a name up yields the property at any index
/// that carries the name.
proof fn lemma_lookup_unique(props: Seq<NamedProperty>, n: Seq<char>, k: int)
    requires
        unique_names(props),
        0 <= k < props.len(),
        props[k].name@ == n,
    ensures
        has_name(props, n),
        lookup_value(props, n) == props[k].value,
    decreases props.len(),
{
    if props[0].name@ == n {
        assert(k == 0);
    } else {
        assert(k > 0);
        assert(props.drop_first()[k - 1] == props[k]);
        assert(unique_names(props.drop_first())) by {
            assert(forall|i: int, j: int|
                0 <= i < j < props.drop_first().len() ==> props.drop_first()[i]
                    == props[i + 1] && props.drop_first()[j] == props[j + 1]);
        }
        lemma_lookup_unique(props.drop_first(), n, k - 1);
        let w = choose|i: int|
            0 <= i < props.drop_first().len() && (#[trigger] props.drop_first()[i]).name@ == n;
        assert(props[w + 1].name@ == n);
    }
}

/// Each entry of the canonical ordering designates a numeric property of
/// the mapping its privacy flag points at.
pub proof fn lemma_canonical_entry_lookup(cert: MaterialCertification, i: int)
    requires
        cert.wf(),
        0 <= i < canonical_entries(cert).len(),
    ensures
        ({
            let e = canonical_entries(cert)[i];
            let props = if e.1 {
                cert.properties_tested.private_properties@
            } else {
                cert.properties_tested.public_properties@
            };
            has_name(props, e.0) && entry_property(cert, i).value is Number && entry_property(
                cert,
                i,
            ) == lookup_value(props, e.0)
        }),
{
    broadcast use vstd::seq_lib::group_to_multiset_ensures;

    let e = canonical_entries(cert)[i];
    let pub_props = cert.properties_tested.public_properties@;
    let priv_props = cert.properties_tested.private_properties@;
    let pub_sorted = numeric_names(pub_props).sort_by(crate::lex::lex_leq());
    let priv_sorted = numeric_names(priv_props).sort_by(crate::lex::lex_leq());
    crate::lex::lemma_lex_total_ordering();
    numeric_names(pub_props).lemma_sort_by_ensures(crate::lex::lex_leq());
    numeric_names(priv_props).lemma_sort_by_ensures(crate::lex::lex_leq());
    if i < pub_sorted.len() {
        assert(e == (pub_sorted[i], false));
        assert(pub_sorted.contains(e.0));
        assert(pub_sorted.to_multiset().contains(e.0));
        assert(numeric_names(pub_props).contains(e.0));
        lemma_numeric_names_sound(pub_props, e.0);
        let k = choose|k: int|
            0 <= k < pub_props.len() && (#[trigger] pub_props[k]).name@ == e.0 && is_numeric(
                pub_props[k],
            );
        lemma_lookup_unique(pub_props, e.0, k);
    } else {
        let j = i - pub_sorted.len();
        assert(e == (priv_sorted[j], true));
        assert(priv_sorted.contains(e.0));
        assert(priv_sorted.to_multiset().contains(e.0));
        assert(numeric_names(priv_props).contains(e.0));
        lemma_numeric_names_sound(priv_props, e.0);
        let k = choose|k: int|
            0 <= k < priv_props.len() && (#[trigger] priv_props[k]).name@ == e.0 && is_numeric(
                priv_props[k],
            );
        lemma_lookup_unique(priv_props, e.0, k);
    }
}

/// Finds the property named `name`, if any.
pub(crate) fn find_property<'a>(props: &'a Vec<NamedProperty>, name: &String) -> (r: Option<
    &'a PropertyValue,
>)
    ensures
        match r {
            Some(pv) => has_name(props@, name@) && *pv == lookup_value(props@, name@),
            None => !has_name(props@, name@),
        },
{
    let mut i: usize = 0;
    while i < props.len()
        invariant
            i <= props@.len(),
            forall|j: int| 0 <= j < i ==> (#[trigger] props@[j]).name@ != name@,
        decreases props@.len() - i,
    {
        if props[i].name.eq(name) {
            proof {
                lemma_lookup_prefix(props@, name@, i as int);
            }
            return Some(&props[i].value);
        }
        i += 1;
    }
    None
}

/// When the first `k` properties miss `name` and property `k` carries it,
/// the lookup yields property `k`.
proof fn lemma_lookup_prefix(props: Seq<NamedProperty>, n: Seq<char>, k: int)
    requires
        0 <= k < props.len(),
        props[k].name@ == n,
        forall|j: int| 0 <= j < k ==> (#[trigger] props[j]).name@ != n,
    ensures
        has_name(props, n),
        lookup_value(props, n) == props[k].value,
    decreases k,
{
    if k > 0 {
        assert(props.drop_first()[k - 1] == props[k]);
        assert(forall|j: int|
            0 <= j < k - 1 ==> (#[trigger] props.drop_first()[j]) == props[j + 1]);
        lemma_lookup_prefix(props.drop_first(), n, k - 1);
        let w = choose|i: int|
            0 <= i < props.drop_first().len() && (#[trigger] props.drop_first()[i]).name@ == n;
        assert(props[w + 1].name@ == n);
    }
}

/// Flattens a certification into the four ordered vectors of the
/// proving environment, aligned to the canonical ordering.
///
/// Fails exactly when the canonical ordering is empty: a certification
/// without numeric properties has nothing to prove.
pub fn prepare_material_data(cert: &MaterialCertification) -> (r: Result<
    PreparedInput,
    VerificationError,
>)
    requires
        cert.wf(),
    ensures
        r is Ok <==> canonical_entries(*cert).len() > 0,
        r is Err ==> r->Err_0 == VerificationError::EmptyInput,
        r is Ok ==> r->Ok_0.wf() && r->Ok_0.prepared_from(*cert),
{
    let entries = canonical_order(cert);
    let ghost ce = canonical_entries(*cert);
    proof {
        assert(entries@.len() == ce.len());
    }
    if entries.len() == 0 {
        return Err(VerificationError::EmptyInput);
    }
    let mut values: Vec<i64> = Vec::new();
    let mut min_thresholds: Vec<i64> = Vec::new();
    let mut max_thresholds: Vec<i64> = Vec::new();
    let mut privacy_flags: Vec<bool> = Vec::new();
    let mut i: usize = 0;
    while i < entries.len()
        invariant
            cert.wf(),
            entries@.map_values(|e: OrderedEntry| e.view_pair()) == ce,
            ce == canonical_entries(*cert),
            i <= entries@.len(),
            values@.len() == i,
            min_thresholds@.len() == i,
            max_thresholds@.len() == i,
            privacy_flags@.len() == i,
            forall|j: int|
                0 <= j < i ==> values@[j] == numeric_value(#[trigger] entry_property(*cert, j)),
            forall|j: int|
                0 <= j < i ==> min_thresholds@[j] == min_bound(
                    #[trigger] entry_property(*cert, j),
                ),
            forall|j: int|
                0 <= j < i ==> max_thresholds@[j] == max_bound(
                    #[trigger] entry_property(*cert, j),
                ),
            forall|j: int| 0 <= j < i ==> privacy_flags@[j] == (#[trigger] ce[j]).1,
        decreases entries@.len() - i,
    {
        proof {
            assert(entries@.map_values(|e: OrderedEntry| e.view_pair())[i as int] == ce[i as int]);
            lemma_canonical_entry_lookup(*cert, i as int);
        }
        let is_private = entries[i].is_private;
        let props = if is_private {
            &cert.properties_tested.private_properties
        } else {
            &cert.properties_tested.public_properties
        };
        match find_property(props, &entries[i].name) {
            Some(pv) => {
                proof {
                    assert(*pv == entry_property(*cert, i as int));
                }
                match pv.value {
                    MeasuredValue::Number(v) => {
                        values.push(v);
                    },
                    MeasuredValue::Other => {
                        // Unreachable: the canonical ordering only names
                        // numeric properties.
                        proof {
                            assert(false);
                        }
                        values.push(0);
                    },
                }
                match &pv.threshold {
                    Some(t) => {
                        min_thresholds.push(t.min);
                        max_thresholds.push(t.max);
                    },
                    None => {
                        min_thresholds.push(i64::MIN);
                        max_thresholds.push(i64::MAX);
                    },
                }
            },
            None => {
                // Unreachable: every canonical entry names a property
                // of its mapping.
                proof {
                    assert(false);
                }
                return Err(VerificationError::EmptyInput);
            },
        }
        privacy_flags.push(is_private);
        i += 1;
    }
    Ok(PreparedInput { values, min_thresholds, max_thresholds, privacy_flags })
}

} // verus!
