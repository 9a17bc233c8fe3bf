//! The space of a volume: what is in use and which share is free.

use crate::types::{AnalysisError, DriveAnalysis};
use vstd::prelude::*;

verus! {

/// The free share of a volume in hundredths of a percent, rounded down; 0
/// for a volume of no bytes.
pub open spec fn free_share_x100(total: u64, free: u64) -> int {
    if total == 0 {
        0
    } else {
        (free * 10_000) / (total as int)
    }
}

/// What a volume's answer amounts to. `readout` holds the bytes of the
/// volume and its free bytes, or nothing where the volume gave no answer.
/// Every answer is taken as it came: a volume may name more free bytes than
/// bytes, as one does that counts its bytes by the user's quota and its
/// free bytes by the disk; the bytes in use are then below zero and the
/// free share above the whole. Only a volume that gave no answer is
/// unavailable.
pub open spec fn space_of(readout: Option<(u64, u64)>) -> Result<DriveAnalysis, AnalysisError> {
    match readout {
        Some((total, free)) => Ok(
            DriveAnalysis {
                total_size: total,
                used_space: (total - free) as i128,
                free_space: free,
                free_space_percent_x100: free_share_x100(total, free) as u128,
            },
        ),
        None => Err(AnalysisError::VolumeUnavailable),
    }
}

/// The free share is a number that a `u128` holds, and where no more bytes
/// are free than there are it is at most the whole: 100 percent.
pub proof fn lemma_free_share_bound(total: u64, free: u64)
    ensures
        0 <= free_share_x100(total, free) <= free * 10_000,
        free <= total ==> free_share_x100(total, free) <= 10_000,
{
    if total > 0 {
        assert(0 <= (free * 10_000) / (total as int) <= free * 10_000) by (nonlinear_arith)
            requires
                0 <= free,
                total > 0,
        ;
        if free <= total {
            assert((free * 10_000) / (total as int) <= 10_000) by (nonlinear_arith)
                requires
                    0 <= free <= total,
                    total > 0,
            ;
        }
    }
}

/// An answer is an answer: the space of a volume is known exactly when the
/// volume gave one. Where no more bytes are free than there are, the bytes
/// in use and the free bytes make up the volume, and the free share is at
/// most 100 percent.
pub proof fn lemma_space_known_iff_answered(readout: Option<(u64, u64)>)
    ensures
        space_of(readout) is Ok <==> readout is Some,
        space_of(readout) is Err ==> space_of(readout) == Err::<DriveAnalysis, AnalysisError>(
            AnalysisError::VolumeUnavailable,
        ),
        readout matches Some((total, free)) ==> {
            let space = space_of(readout)->Ok_0;
            &&& space.total_size == total
            &&& space.free_space == free
            &&& space.used_space + free == total
            &&& free <= total ==> space.used_space >= 0 && space.free_space_percent_x100 <= 10_000
        },
{
    if let Some((total, free)) = readout {
        lemma_free_share_bound(total, free);
    }
}

/// Works out the space of a volume from its answer: see `space_of`. The
/// result is an error exactly where the volume gave no answer.
pub fn get_drive_space(readout: Option<(u64, u64)>) -> (space: Result<DriveAnalysis, AnalysisError>)
    ensures
        space == space_of(readout),
        space is Err <==> readout is None,
{
    match readout {
        Some((total, free)) => {
            let share: u128 = if total == 0 {
                0
            } else {
                proof {
                    lemma_free_share_bound(total, free);
                }
                let scaled: u128 = (free as u128) * 10_000;
                scaled / (total as u128)
            };
            Ok(
                DriveAnalysis {
                    total_size: total,
                    used_space: total as i128 - free as i128,
                    free_space: free,
                    free_space_percent_x100: share,
                },
            )
        },
        None => Err(AnalysisError::VolumeUnavailable),
    }
}

} // verus!
