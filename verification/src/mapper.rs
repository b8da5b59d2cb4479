//! Holds a completed telegram against every definition of the catalog and
//! decodes the payload of each one that applies.

use vstd::prelude::*;
use crate::catalog::{Catalog, Circuit, FieldValue, MessageDef};
use crate::hexfmt::{hex_encode_upper, upper_hex};
use crate::pattern::{match_field, pattern_matches};
use crate::record::{decoded_record, DecodedRecord};
use crate::telegram::{EbusRequest, EbusResponse, RequestView, TelegramView};

verus! {

/// A definition applies to a request when each of its four patterns accepts
/// the field that it is for, rendered as upper-case hexadecimal: source and
/// destination address and the command pair as shortest numerals, the payload
/// with two digits per byte.
pub open spec fn message_matches(def: MessageDef, request: RequestView) -> bool {
    &&& pattern_matches(upper_hex(request.src as nat), def.request_match.src@)
    &&& pattern_matches(upper_hex(request.dest as nat), def.request_match.dst@)
    &&& pattern_matches(upper_hex(request.pbsb as nat), def.request_match.pbsb@)
    &&& pattern_matches(hex_encode_upper(request.data), def.request_match.data@)
}

/// The record that a definition extracts from a telegram: decoded from the
/// response payload if the definition has a response map and the telegram a
/// response; else from the request payload if the definition has a request
/// map; else there is none.
pub open spec fn extracted(def: MessageDef, telegram: TelegramView) -> Option<
    Seq<(Seq<char>, FieldValue)>,
> {
    if def.response_map is Some && telegram.response is Some {
        Some(decoded_record(def.response_map->0@, telegram.response->0.data))
    } else if def.request_map is Some {
        Some(decoded_record(def.request_map->0@, telegram.request.data))
    } else {
        None
    }
}

/// The telegram that a request and an optional response make up.
pub open spec fn telegram_of(req: &EbusRequest, resp: Option<&EbusResponse>) -> TelegramView {
    TelegramView {
        request: req@,
        response: match resp {
            Some(response) => Some(response@),
            None => None,
        },
    }
}

/// One definition that applied to a telegram, apart from how it is stored.
pub ghost struct MatchView {
    /// Position of the circuit in the catalog.
    pub circuit: int,
    /// Position of the definition in its circuit.
    pub message: int,
    pub record: Option<Seq<(Seq<char>, FieldValue)>>,
}

/// One definition that applied to a telegram, and what it extracted.
pub struct MessageMatch {
    /// Position of the circuit in the catalog.
    pub circuit: usize,
    /// Position of the definition in its circuit.
    pub message: usize,
    /// The decoded record, or nothing where no field map applied.
    pub record: Option<DecodedRecord>,
}

impl View for MessageMatch {
    type V = MatchView;

    open spec fn view(&self) -> MatchView {
        MatchView {
            circuit: self.circuit as int,
            message: self.message as int,
            record: match self.record {
                Some(record) => Some(record@),
                None => None,
            },
        }
    }
}

/// The views of a sequence of matches, in order.
pub open spec fn match_views(matches: Seq<MessageMatch>) -> Seq<MatchView> {
    matches.map_values(|m: MessageMatch| m@)
}

/// The matches among the first `upto` definitions of the circuit at position
/// `index`, in the order of the definitions.
pub open spec fn matches_in_circuit(
    circuit: Circuit,
    index: int,
    telegram: TelegramView,
    upto: int,
) -> Seq<MatchView>
    decreases upto,
{
    if upto <= 0 {
        Seq::empty()
    } else {
        let before = matches_in_circuit(circuit, index, telegram, upto - 1);
        let def = circuit.messages@[upto - 1];
        if message_matches(def, telegram.request) {
            before.push(
                MatchView { circuit: index, message: upto - 1, record: extracted(def, telegram) },
            )
        } else {
            before
        }
    }
}

/// The matches among the definitions of the first `upto` circuits of the
/// catalog: circuit after circuit, every definition of each.
pub open spec fn matches_in_catalog(catalog: Catalog, telegram: TelegramView, upto: int) -> Seq<
    MatchView,
>
    decreases upto,
{
    if upto <= 0 {
        Seq::empty()
    } else {
        let circuit = catalog.circuits@[upto - 1];
        matches_in_catalog(catalog, telegram, upto - 1) + matches_in_circuit(
            circuit,
            upto - 1,
            telegram,
            circuit.messages@.len() as int,
        )
    }
}

/// Whether `def` applies to `req`.
pub fn matches_request(def: &MessageDef, req: &EbusRequest) -> (matched: bool)
    ensures
        matched == message_matches(*def, req@),
{
    match_field(req.src_hex().as_str(), def.request_match.src.as_str()) && match_field(
        req.dest_hex().as_str(),
        def.request_match.dst.as_str(),
    ) && match_field(req.pbsb_hex().as_str(), def.request_match.pbsb.as_str()) && match_field(
        req.data_hex().as_str(),
        def.request_match.data.as_str(),
    )
}

/// Decodes the record that `def` extracts from the telegram, if a field map
/// of `def` applies to it.
pub fn extract_record(def: &MessageDef, req: &EbusRequest, resp: Option<&EbusResponse>) -> (record:
    Option<DecodedRecord>)
    ensures
        record is Some == extracted(*def, telegram_of(req, resp)) is Some,
        record is Some ==> record->0@ == extracted(*def, telegram_of(req, resp))->0,
        record is Some ==> record->0.wf(),
{
    match (&def.response_map, resp) {
        (Some(map), Some(response)) => {
            return Some(DecodedRecord::decode(map, response.data().as_slice()));
        },
        _ => {},
    }
    match &def.request_map {
        Some(map) => Some(DecodedRecord::decode(map, req.data().as_slice())),
        None => None,
    }
}

/// The matcher and extractor for one catalog.
pub struct Mapper {
    defs: Catalog,
}

impl Mapper {
    /// The catalog that the mapper works with.
    pub closed spec fn catalog(&self) -> Catalog {
        self.defs
    }

    /// A mapper for `defs`.
    pub fn new(defs: Catalog) -> (mapper: Mapper)
        ensures
            mapper.catalog() == defs,
    {
        Mapper { defs }
    }

    /// The catalog that the mapper works with.
    pub fn defs(&self) -> (defs: &Catalog)
        ensures
            *defs == self.catalog(),
    {
        &self.defs
    }

    /// Holds the telegram against every definition of the catalog, in catalog
    /// order, and returns one match for each definition that applies, with
    /// the record that it extracts.
    pub fn received_telegram(&self, req: &EbusRequest, resp: Option<&EbusResponse>) -> (matches:
        Vec<MessageMatch>)
        ensures
            match_views(matches@) == matches_in_catalog(
                self.catalog(),
                telegram_of(req, resp),
                self.catalog().circuits@.len() as int,
            ),
            forall|i: int|
                0 <= i < matches@.len() && (#[trigger] matches@[i]).record is Some
                    ==> matches@[i].record->0.wf(),
    {
        let ghost telegram = telegram_of(req, resp);
        let mut matches: Vec<MessageMatch> = Vec::new();
        proof {
            assert(match_views(matches@) =~= Seq::<MatchView>::empty());
        }
        let mut c: usize = 0;
        while c < self.defs.circuits.len()
            invariant
                c <= self.defs.circuits@.len(),
                telegram == telegram_of(req, resp),
                match_views(matches@) == matches_in_catalog(self.defs, telegram, c as int),
                forall|i: int|
                    0 <= i < matches@.len() && (#[trigger] matches@[i]).record is Some
                        ==> matches@[i].record->0.wf(),
            decreases self.defs.circuits@.len() - c,
        {
            let circuit = &self.defs.circuits[c];
            let ghost done = match_views(matches@);
            proof {
                assert(done + Seq::<MatchView>::empty() =~= done);
            }
            let mut m: usize = 0;
            while m < circuit.messages.len()
                invariant
                    m <= circuit.messages@.len(),
                    telegram == telegram_of(req, resp),
                    match_views(matches@) == done + matches_in_circuit(
                        *circuit,
                        c as int,
                        telegram,
                        m as int,
                    ),
                    forall|i: int|
                        0 <= i < matches@.len() && (#[trigger] matches@[i]).record is Some
                            ==> matches@[i].record->0.wf(),
                decreases circuit.messages@.len() - m,
            {
                let def = &circuit.messages[m];
                if matches_request(def, req) {
                    let record = extract_record(def, req, resp);
                    let found = MessageMatch { circuit: c, message: m, record };
                    let ghost before = match_views(matches@);
                    matches.push(found);
                    proof {
                        assert(match_views(matches@) =~= before.push(found@));
                        assert(before.push(found@) =~= done + matches_in_circuit(
                            *circuit,
                            c as int,
                            telegram,
                            m as int,
                        ).push(found@));
                    }
                }
                m += 1;
            }
            c += 1;
        }
        matches
    }
}

} // verus!
