//! The error kinds that the core reports.

use vstd::prelude::*;

verus! {

#[derive(Clone, Copy, Debug, PartialEq, Eq, Structural)]
pub enum Erro {
    /// A reveal does not hash to its commitment.
    RevealInvalido,
    /// A reveal arrived for a node that never committed.
    CommitmentAusente,
    /// The stored block hash is not the hash of the header, or a validator
    /// refused the block.
    EstruturaBlocoInvalida,
    /// The stored Merkle root is not the root of the transactions.
    MerkleDivergente,
    /// The stored miner signature is not the one over block hash and miner.
    AssinaturaInvalida,
    /// A block does not point at the current tip.
    LigacaoInvalida,
    /// A block number is not the next one.
    ForaDeSequencia,
    /// The proof-of-work predicate does not hold.
    DificuldadeNaoAtingida,
    /// The key-value store holds something that cannot be a chain.
    Persistencia,
    /// Bytes that do not decode.
    Decodificacao,
    /// A timestamp outside the calendar: it has no ISO-8601 text.
    TimestampSemTexto,
    /// A Merkle tree over no nodes.
    ListaDeNosVazia,
    /// A transaction with an empty id, payload or signature, or from the future.
    TransacaoInvalida,
    /// A chain that holds as many blocks as the machine can count.
    CadeiaCheia,
    /// A block whose binary layout is longer than a frame may hold.
    BlocoGrandeDemais,
    /// No checkpoint, block, account or record where one was asked for.
    NaoEncontrado,
    /// A distribution below the minimum fee, or whose parts do not add up
    /// to its total.
    DistribuicaoInvalida,
    /// A withdrawal above the balance of the account.
    SaldoInsuficiente,
    /// A record in a status that does not allow the change asked for.
    StatusInvalido,
}

} // verus!
