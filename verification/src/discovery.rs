use vstd::prelude::*;

use crate::metadata::{
    spec_parse_new_rec, spec_parse_old_rec, CdTrackInfo, TrackRec, CDROM_TRACK_METADATA2_TAG,
    CDROM_TRACK_METADATA_TAG,
};
use crate::ChdError;

verus! {

impl DeepView for CdTrackInfo {
    type V = TrackRec;

    open spec fn deep_view(&self) -> TrackRec {
        self.view()
    }
}

/// Result of one engine metadata query, as the discovery protocol sees it:
/// a record was found, no record exists for the queried tag and index, or
/// the engine failed with an opaque status code.
#[derive(Debug)]
pub enum MetadataStatus {
    /// The record bytes the engine wrote: the result length's worth of
    /// bytes, ending in the NUL terminator.
    Found(Vec<u8>),
    NotFound,
    Failure(u32),
}

/// Model of one engine metadata query's result.
pub ghost enum MetadataStatusModel {
    Found(Seq<u8>),
    NotFound,
    Failure(u32),
}

impl View for MetadataStatus {
    type V = MetadataStatusModel;

    open spec fn view(&self) -> MetadataStatusModel {
        match self {
            MetadataStatus::Found(bytes) => MetadataStatusModel::Found(bytes@),
            MetadataStatus::NotFound => MetadataStatusModel::NotFound,
            MetadataStatus::Failure(code) => MetadataStatusModel::Failure(*code),
        }
    }
}

/// Model of the discovery state: the tag still being searched and the
/// tracks recovered so far. The next index to query is the track count.
pub ghost struct DiscoveryModel {
    pub search_tag: u32,
    pub tracks: Seq<TrackRec>,
}

/// Model of one protocol step's outcome.
pub ghost enum StepModel {
    Continue(DiscoveryModel),
    Done(Seq<TrackRec>),
    Fail(ChdError),
}

/// One transition of the discovery protocol.
///
/// Not-found while no track has been seen under the current-format tag
/// switches to the legacy tag and retries; not-found anywhere else ends the
/// table, which is an error only when it is still empty. Any other engine
/// failure aborts. A found record — its trailing NUL stripped — is parsed by
/// the grammar matching the tag that found it; a parse failure aborts, and a
/// parsed track is appended, the tag kept as it is.
pub open spec fn spec_discovery_step(d: DiscoveryModel, s: MetadataStatusModel) -> StepModel {
    match s {
        MetadataStatusModel::NotFound => {
            if d.tracks.len() == 0 && d.search_tag == CDROM_TRACK_METADATA2_TAG {
                StepModel::Continue(
                    DiscoveryModel { search_tag: CDROM_TRACK_METADATA_TAG, tracks: d.tracks },
                )
            } else if d.tracks.len() == 0 {
                StepModel::Fail(ChdError::NoCdromMetadata)
            } else {
                StepModel::Done(d.tracks)
            }
        },
        MetadataStatusModel::Failure(code) => StepModel::Fail(ChdError::ChdrCError(code)),
        MetadataStatusModel::Found(bytes) => {
            if bytes.len() == 0 {
                StepModel::Fail(ChdError::MetadataTextParseError)
            } else {
                let rec = bytes.take(bytes.len() - 1);
                let parsed = if d.search_tag == CDROM_TRACK_METADATA2_TAG {
                    spec_parse_new_rec(rec)
                } else {
                    spec_parse_old_rec(rec)
                };
                match parsed {
                    Option::Some(t) => StepModel::Continue(
                        DiscoveryModel { search_tag: d.search_tag, tracks: d.tracks.push(t) },
                    ),
                    Option::None => StepModel::Fail(ChdError::MetadataTextParseError),
                }
            }
        },
    }
}

/// Driver state for metadata discovery. The caller performs each engine
/// query between steps and hands its outcome to `on_metadata`.
#[derive(Debug)]
pub struct Discovery {
    search_tag: u32,
    tracks: Vec<CdTrackInfo>,
}

impl View for Discovery {
    type V = DiscoveryModel;

    closed spec fn view(&self) -> DiscoveryModel {
        DiscoveryModel { search_tag: self.search_tag, tracks: self.tracks.deep_view() }
    }
}

/// Outcome of one protocol step: query again, the finished table, or a
/// terminal failure.
#[derive(Debug)]
pub enum DiscoveryStep {
    Continue(Discovery),
    Done(Vec<CdTrackInfo>),
    Fail(ChdError),
}

impl View for DiscoveryStep {
    type V = StepModel;

    open spec fn view(&self) -> StepModel {
        match self {
            DiscoveryStep::Continue(d) => StepModel::Continue(d@),
            DiscoveryStep::Done(tracks) => StepModel::Done(tracks.deep_view()),
            DiscoveryStep::Fail(e) => StepModel::Fail(*e),
        }
    }
}

impl Discovery {
    /// The search tag is always one of the two well-known metadata tags.
    pub open spec fn wf(&self) -> bool {
        self@.search_tag == CDROM_TRACK_METADATA2_TAG || self@.search_tag
            == CDROM_TRACK_METADATA_TAG
    }

    /// Begin discovery: current-format tag first, no tracks yet.
    pub fn new() -> (d: Discovery)
        ensures
            d@.search_tag == CDROM_TRACK_METADATA2_TAG,
            d@.tracks == Seq::<TrackRec>::empty(),
            d.wf(),
    {
        let d = Discovery { search_tag: CDROM_TRACK_METADATA2_TAG, tracks: Vec::new() };
        proof {
            assert(d@.tracks =~= Seq::<TrackRec>::empty());
        }
        d
    }

    /// The query to put to the engine next: the search tag, and the index,
    /// which is always the number of tracks found so far.
    pub fn next_query(&self) -> (q: (u32, usize))
        ensures
            q.0 == self@.search_tag,
            q.1 == self@.tracks.len(),
    {
        (self.search_tag, self.tracks.len())
    }

    /// Advance the protocol by one engine response.
    pub fn on_metadata(self, status: MetadataStatus) -> (r: DiscoveryStep)
        ensures
            r@ == spec_discovery_step(self@, status@),
            self.wf() ==> (match r {
                DiscoveryStep::Continue(d2) => d2.wf(),
                _ => true,
            }),
    {
        match status {
            MetadataStatus::NotFound => {
                if self.tracks.len() == 0 && self.search_tag == CDROM_TRACK_METADATA2_TAG {
                    DiscoveryStep::Continue(
                        Discovery { search_tag: CDROM_TRACK_METADATA_TAG, tracks: self.tracks },
                    )
                } else if self.tracks.len() == 0 {
                    DiscoveryStep::Fail(ChdError::NoCdromMetadata)
                } else {
                    DiscoveryStep::Done(self.tracks)
                }
            },
            MetadataStatus::Failure(code) => DiscoveryStep::Fail(ChdError::ChdrCError(code)),
            MetadataStatus::Found(bytes) => {
                if bytes.len() == 0 {
                    return DiscoveryStep::Fail(ChdError::MetadataTextParseError);
                }
                let rec: &[u8] = &bytes.as_slice()[0..bytes.len() - 1];
                proof {
                    assert(rec@ =~= bytes@.take(bytes@.len() - 1));
                }
                let parsed = if self.search_tag == CDROM_TRACK_METADATA2_TAG {
                    CdTrackInfo::from_metadata(rec)
                } else {
                    CdTrackInfo::from_old_metadata(rec)
                };
                match parsed {
                    Result::Ok(t) => {
                        let ghost prior = self.tracks.deep_view();
                        let ghost trec = t@;
                        let mut tracks = self.tracks;
                        tracks.push(t);
                        proof {
                            assert(tracks.deep_view() =~= prior.push(trec));
                        }
                        DiscoveryStep::Continue(Discovery { search_tag: self.search_tag, tracks })
                    },
                    Result::Err(_) => DiscoveryStep::Fail(ChdError::MetadataTextParseError),
                }
            },
        }
    }
}

/// Once a current-format record has been found — the search tag is still the
/// current-format tag and at least one track is accumulated — discovery never
/// consults the legacy tag: whatever the engine answers, a continuing step
/// still searches the current-format tag.
pub proof fn lemma_no_legacy_after_current_record(d: DiscoveryModel, s: MetadataStatusModel)
    requires
        d.search_tag == CDROM_TRACK_METADATA2_TAG,
        d.tracks.len() > 0,
    ensures
        match spec_discovery_step(d, s) {
            StepModel::Continue(d2) => d2.search_tag == CDROM_TRACK_METADATA2_TAG,
            _ => true,
        },
{
}

/// From any state that has found nothing under the current-format tag, a
/// not-found answer switches discovery to the legacy tag at the same index,
/// and a second not-found ends it with `NoCdromMetadata`: a container without
/// track metadata is an error, distinct from a table found empty.
pub proof fn lemma_empty_table_is_error(d: DiscoveryModel)
    requires
        d.search_tag == CDROM_TRACK_METADATA2_TAG,
        d.tracks.len() == 0,
    ensures
        spec_discovery_step(d, MetadataStatusModel::NotFound) == StepModel::Continue(
            DiscoveryModel { search_tag: CDROM_TRACK_METADATA_TAG, tracks: d.tracks },
        ),
        spec_discovery_step(
            DiscoveryModel { search_tag: CDROM_TRACK_METADATA_TAG, tracks: d.tracks },
            MetadataStatusModel::NotFound,
        ) == StepModel::Fail(ChdError::NoCdromMetadata),
{
}

/// The search tag moves only from the current-format tag to the legacy tag,
/// and only while the table is still empty; tracks are only appended, and
/// only one per step.
pub proof fn lemma_tag_monotone(d: DiscoveryModel, s: MetadataStatusModel)
    ensures
        match spec_discovery_step(d, s) {
            StepModel::Continue(d2) => (d2.search_tag == d.search_tag || (d.search_tag
                == CDROM_TRACK_METADATA2_TAG && d2.search_tag == CDROM_TRACK_METADATA_TAG
                && d.tracks.len() == 0)) && d.tracks.len() <= d2.tracks.len() <= d.tracks.len()
                + 1 && d2.tracks.take(d.tracks.len() as int) == d.tracks,
            _ => true,
        },
{
    match spec_discovery_step(d, s) {
        StepModel::Continue(d2) => {
            assert(d2.tracks.take(d.tracks.len() as int) =~= d.tracks);
        },
        _ => {},
    }
}

} // verus!
