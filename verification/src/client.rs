//! The client handle a handler host works through: the authority client it
//! reads events from, the logger it reports to, and the transaction manager
//! its submissions go out on. Both collaborators are opaque here; the handle
//! only bundles them.

use vstd::prelude::*;
use crate::dispatcher::Logger;

verus! {

/// A handle over the authority client and the transaction manager, bundled
/// with the logger the host reports through.
pub struct JobsClient<Cl, Tx> {
    pub client: Cl,
    pub logger: Logger,
    pub pallet_tx: Tx,
}

/// Builds the client handle from its three collaborators, unchanged.
pub fn create_client<Cl, Tx>(client: Cl, logger: Logger, pallet_tx: Tx) -> (r: JobsClient<Cl, Tx>)
    ensures
        r.client == client,
        r.logger == logger,
        r.pallet_tx == pallet_tx,
{
    JobsClient { client, logger, pallet_tx }
}

} // verus!
