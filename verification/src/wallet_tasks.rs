//! The wallet tasks that the explorer runs, and the answer that each gives.
use vstd::prelude::*;

verus! {

/// The tasks on the wallet.
pub enum WalletTask {
    /// Load a wallet from a private key, in hex or WIF.
    AddByPrivateKey(String),
    /// Load a wallet with a fresh random key.
    AddRandomKey,
    /// Read the wallet's unspent outputs again.
    Refresh,
    /// Put the wallet's address on the clipboard.
    CopyAddress,
    /// Forget the loaded wallet.
    ClearLoadedWallet,
    /// Split the wallet's value into this many outputs.
    SplitUTXOs(u32),
}

/// How the work of a task went.
pub enum WalletTaskOutcome {
    /// It was done.
    Succeeded,
    /// It needs a loaded wallet and none was loaded.
    NoWalletLoaded,
    /// It failed, with the message of its error.
    Failed(String),
}

/// The answer of a task: the message of success, or of the failure.
pub open spec fn task_answer(task: WalletTask, outcome: WalletTaskOutcome) -> Result<
    Seq<char>,
    Seq<char>,
> {
    match outcome {
        WalletTaskOutcome::NoWalletLoaded => Err("No wallet loaded"@),
        WalletTaskOutcome::Succeeded => Ok(
            match task {
                WalletTask::AddByPrivateKey(_) => "Added wallet"@,
                WalletTask::AddRandomKey => "Added wallet"@,
                WalletTask::Refresh => "Refreshed wallet"@,
                WalletTask::CopyAddress => "Copied Address"@,
                WalletTask::ClearLoadedWallet => "Cleared loaded wallet"@,
                WalletTask::SplitUTXOs(_) => "Split UTXOs"@,
            },
        ),
        WalletTaskOutcome::Failed(e) => Err(
            match task {
                WalletTask::CopyAddress => "Clipboard is not supported"@,
                WalletTask::SplitUTXOs(_) => "Failed to split UTXOS properly"@,
                _ => e@,
            },
        ),
    }
}

/// The answer that a wallet task gives for how its work went.
pub fn wallet_task_answer(task: &WalletTask, outcome: WalletTaskOutcome) -> (r: Result<String, String>)
    ensures
        match (r, task_answer(*task, outcome)) {
            (Ok(m), Ok(t)) => m@ == t,
            (Err(m), Err(t)) => m@ == t,
            _ => false,
        },
{
    match outcome {
        WalletTaskOutcome::NoWalletLoaded => Err("No wallet loaded".to_owned()),
        WalletTaskOutcome::Succeeded => {
            let m = match task {
                WalletTask::AddByPrivateKey(_) => "Added wallet",
                WalletTask::AddRandomKey => "Added wallet",
                WalletTask::Refresh => "Refreshed wallet",
                WalletTask::CopyAddress => "Copied Address",
                WalletTask::ClearLoadedWallet => "Cleared loaded wallet",
                WalletTask::SplitUTXOs(_) => "Split UTXOs",
            };
            Ok(m.to_owned())
        },
        WalletTaskOutcome::Failed(e) => match task {
            WalletTask::CopyAddress => Err("Clipboard is not supported".to_owned()),
            WalletTask::SplitUTXOs(_) => Err("Failed to split UTXOS properly".to_owned()),
            _ => Err(e),
        },
    }
}

/// The tasks that work on the loaded wallet: reading its outputs again,
/// copying its address and splitting its value. The others load a wallet or
/// forget it.
pub open spec fn needs_loaded_wallet_spec(task: WalletTask) -> bool {
    match task {
        WalletTask::Refresh => true,
        WalletTask::CopyAddress => true,
        WalletTask::SplitUTXOs(_) => true,
        _ => false,
    }
}

/// Whether the task works on the loaded wallet.
pub fn needs_loaded_wallet(task: &WalletTask) -> (r: bool)
    ensures
        r == needs_loaded_wallet_spec(*task),
{
    match task {
        WalletTask::Refresh => true,
        WalletTask::CopyAddress => true,
        WalletTask::SplitUTXOs(_) => true,
        _ => false,
    }
}

/// The answer that a task gives before any work, where no wallet is loaded:
/// "No wallet loaded" for the tasks that work on the loaded wallet; `None` for
/// the others, which do their work.
pub fn no_wallet_answer(task: &WalletTask) -> (r: Option<String>)
    ensures
        needs_loaded_wallet_spec(*task) ==> (r matches Some(m) && m@ == "No wallet loaded"@),
        !needs_loaded_wallet_spec(*task) ==> r is None,
{
    if needs_loaded_wallet(task) {
        Some("No wallet loaded".to_owned())
    } else {
        None
    }
}

} // verus!
