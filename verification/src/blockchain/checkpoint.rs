//! Checkpoints: every so many blocks the state that the chain derives is
//! summarized and anchored to a block hash.

use vstd::prelude::*;
use crate::blockchain::bloco::{Bloco, BlocoView};
use crate::blockchain::cadeia::{contador, CadeiaBlockchain};
use crate::blockchain::persistencia::{decimal, digitos_decimais};
use crate::blockchain::validador_cadeia::{mais_um, somar_um};
use crate::codificacao::{cod_bytes, cod_u64, escrever_bytes, escrever_u64};
use crate::consenso::tipos::{
    bytes_de_texto, bytes_do_texto, bytes_iguais, calcular_hash, concatenar, copiar_bytes, sha256, TransacaoView,
};
use crate::erro::Erro;
use crate::mapa::{com_entrada, lugar_de, valor_ou, visoes_bytes, MapaOrdenado};
use crate::tempo::{texto_iso8601, Instante};

verus! {

/// The default interval between checkpoints, in blocks.
pub const INTERVALO_PADRAO: u64 = 100;

/// The balance that an account has before its first transaction.
pub const SALDO_INICIAL: u64 = 1000;

pub struct Checkpoint {
    pub numero_bloco: u64,
    pub hash_bloco: Vec<u8>,
    pub merkle_root_estado: Vec<u8>,
    pub timestamp: Instante,
    pub assinatura: Vec<u8>,
    pub validadores: Vec<String>,
}

/// What a checkpoint holds, as mathematical values.
pub struct CheckpointView {
    pub numero_bloco: u64,
    pub hash_bloco: Seq<u8>,
    pub merkle_root_estado: Seq<u8>,
    pub timestamp: Instante,
    pub assinatura: Seq<u8>,
    pub validadores: Seq<Seq<char>>,
}

impl View for Checkpoint {
    type V = CheckpointView;

    open spec fn view(&self) -> CheckpointView {
        CheckpointView {
            numero_bloco: self.numero_bloco,
            hash_bloco: self.hash_bloco@,
            merkle_root_estado: self.merkle_root_estado@,
            timestamp: self.timestamp,
            assinatura: self.assinatura@,
            validadores: Seq::new(self.validadores@.len(), |i: int| self.validadores@[i]@),
        }
    }
}

impl Checkpoint {
    /// A copy with the same contents.
    pub fn duplicar(&self) -> (r: Checkpoint)
        ensures
            r@ == self@,
    {
        let mut validadores: Vec<String> = Vec::new();
        let mut i: usize = 0;
        while i < self.validadores.len()
            invariant
                i <= self.validadores@.len(),
                validadores@.len() == i,
                forall|k: int| 0 <= k < i ==> (#[trigger] validadores@[k])@ == self.validadores@[k]@,
            decreases self.validadores@.len() - i,
        {
            validadores.push(self.validadores[i].clone());
            i += 1;
        }
        let r = Checkpoint {
            numero_bloco: self.numero_bloco,
            hash_bloco: copiar_bytes(&self.hash_bloco),
            merkle_root_estado: copiar_bytes(&self.merkle_root_estado),
            timestamp: self.timestamp,
            assinatura: copiar_bytes(&self.assinatura),
            validadores,
        };
        assert(r@.validadores =~= self@.validadores);
        r
    }
}

/// The views of a list of checkpoints, in order.
pub open spec fn visoes_checkpoints(s: Seq<Checkpoint>) -> Seq<CheckpointView> {
    Seq::new(s.len(), |i: int| s[i]@)
}

/// The state derived from a chain: balances, contract code, nonces, and
/// notes on the derivation, each keyed by bytes in order of first entry.
pub struct EstadoCheckpoint {
    pub balances: MapaOrdenado<u64>,
    pub contratos: MapaOrdenado<Vec<u8>>,
    pub nonces: MapaOrdenado<u64>,
    pub metadata: MapaOrdenado<Vec<u8>>,
}

/// The keys and values of a table, oldest entry first.
pub struct TabelaView<V> {
    pub chaves: Seq<Seq<u8>>,
    pub valores: Seq<V>,
}

/// What a state holds, as mathematical values.
pub struct EstadoCheckpointView {
    pub balances: TabelaView<u64>,
    pub contratos: TabelaView<Seq<u8>>,
    pub nonces: TabelaView<u64>,
    pub metadata: TabelaView<Seq<u8>>,
}

impl View for EstadoCheckpoint {
    type V = EstadoCheckpointView;

    open spec fn view(&self) -> EstadoCheckpointView {
        EstadoCheckpointView {
            balances: TabelaView {
                chaves: self.balances.chaves(),
                valores: self.balances.valores(),
            },
            contratos: TabelaView {
                chaves: self.contratos.chaves(),
                valores: visoes_bytes(self.contratos.valores()),
            },
            nonces: TabelaView { chaves: self.nonces.chaves(), valores: self.nonces.valores() },
            metadata: TabelaView {
                chaves: self.metadata.chaves(),
                valores: visoes_bytes(self.metadata.valores()),
            },
        }
    }
}

/// The state of a chain without transactions.
pub open spec fn estado_vazio() -> EstadoCheckpointView {
    EstadoCheckpointView {
        balances: TabelaView { chaves: Seq::empty(), valores: Seq::empty() },
        contratos: TabelaView { chaves: Seq::empty(), valores: Seq::empty() },
        nonces: TabelaView { chaves: Seq::empty(), valores: Seq::empty() },
        metadata: TabelaView { chaves: Seq::empty(), valores: Seq::empty() },
    }
}

/// A table after `valor` was put under `chave`.
pub open spec fn tabela_com<V>(t: TabelaView<V>, chave: Seq<u8>, valor: V) -> TabelaView<V> {
    let (chaves, valores) = com_entrada(t.chaves, t.valores, chave, valor);
    TabelaView { chaves, valores }
}

/// The state after a transaction of account `conta`: its nonce goes up by
/// one from 0, its balance down by one from 1000, neither past the ends of
/// `u64`.
pub open spec fn apos_transacao(e: EstadoCheckpointView, conta: Seq<u8>) -> EstadoCheckpointView {
    let nonce = valor_ou(e.nonces.chaves, e.nonces.valores, conta, 0u64);
    let saldo = valor_ou(e.balances.chaves, e.balances.valores, conta, SALDO_INICIAL);
    EstadoCheckpointView {
        nonces: tabela_com(e.nonces, conta, mais_um(nonce)),
        balances: tabela_com(
            e.balances,
            conta,
            if saldo == 0 {
                0u64
            } else {
                (saldo - 1) as u64
            },
        ),
        ..e
    }
}

/// The state after the first `n` transactions of a block, each booked on
/// the account named by its id.
pub open spec fn apos_transacoes(e: EstadoCheckpointView, txs: Seq<TransacaoView>, n: int) -> EstadoCheckpointView
    decreases n,
{
    if n <= 0 {
        e
    } else {
        apos_transacao(apos_transacoes(e, txs, n - 1), bytes_de_texto(txs[n - 1].id))
    }
}

/// The state after the first `n` blocks of a chain.
pub open spec fn apos_blocos(blocos: Seq<BlocoView>, n: int) -> EstadoCheckpointView
    decreases n,
{
    if n <= 0 {
        estado_vazio()
    } else {
        apos_transacoes(
            apos_blocos(blocos, n - 1),
            blocos[n - 1].transacoes,
            blocos[n - 1].transacoes.len() as int,
        )
    }
}

/// How many blocks a replay up to block `ate_bloco` covers.
pub open spec fn blocos_cobertos(blocos: Seq<BlocoView>, ate_bloco: u64) -> int {
    if ate_bloco < blocos.len() {
        ate_bloco + 1
    } else {
        blocos.len() as int
    }
}

/// The state that a replay of the chain up to block `ate_bloco` derives,
/// with its notes: the number of the last block in decimal, and the text
/// of the instant that the state is stamped with.
pub open spec fn estado_ate(blocos: Seq<BlocoView>, ate_bloco: u64, texto: Seq<u8>) -> EstadoCheckpointView {
    let e = apos_blocos(blocos, blocos_cobertos(blocos, ate_bloco));
    EstadoCheckpointView {
        metadata: tabela_com(
            tabela_com(e.metadata, bytes_de_texto("ultimo_bloco"@), decimal(ate_bloco as nat)),
            bytes_de_texto("timestamp"@),
            texto,
        ),
        ..e
    }
}

/// The bytes of the first `n` entries of a table of numbers.
pub open spec fn cod_entradas_u64(t: TabelaView<u64>, n: int) -> Seq<u8>
    decreases n,
{
    if n <= 0 {
        Seq::empty()
    } else {
        cod_entradas_u64(t, n - 1) + cod_bytes(t.chaves[n - 1]) + cod_u64(t.valores[n - 1])
    }
}

/// The bytes of the first `n` entries of a table of byte strings.
pub open spec fn cod_entradas_bytes(t: TabelaView<Seq<u8>>, n: int) -> Seq<u8>
    decreases n,
{
    if n <= 0 {
        Seq::empty()
    } else {
        cod_entradas_bytes(t, n - 1) + cod_bytes(t.chaves[n - 1]) + cod_bytes(t.valores[n - 1])
    }
}

/// The serialized state: the four tables in declared order, each as its
/// number of entries and then its entries, oldest first, key before value.
pub open spec fn cod_estado(e: EstadoCheckpointView) -> Seq<u8> {
    cod_u64(e.balances.chaves.len() as u64) + cod_entradas_u64(
        e.balances,
        e.balances.chaves.len() as int,
    ) + cod_u64(e.contratos.chaves.len() as u64) + cod_entradas_bytes(
        e.contratos,
        e.contratos.chaves.len() as int,
    ) + cod_u64(e.nonces.chaves.len() as u64) + cod_entradas_u64(
        e.nonces,
        e.nonces.chaves.len() as int,
    ) + cod_u64(e.metadata.chaves.len() as u64) + cod_entradas_bytes(
        e.metadata,
        e.metadata.chaves.len() as int,
    )
}

/// The id of the validator that signs checkpoints.
pub open spec fn validadores_padrao() -> Seq<Seq<char>> {
    seq!["validador_principal"@]
}

/// The checkpoint of block `numero` with hash `hash_bloco` over the
/// serialized state `serializado`: the state root is `H(serialized_state)`,
/// the signature `H(block_hash ‖ serialized_state)`.
pub open spec fn checkpoint_de(
    numero: u64,
    hash_bloco: Seq<u8>,
    serializado: Seq<u8>,
    timestamp: Instante,
) -> CheckpointView {
    CheckpointView {
        numero_bloco: numero,
        hash_bloco,
        merkle_root_estado: sha256(serializado),
        timestamp,
        assinatura: sha256(hash_bloco + serializado),
        validadores: validadores_padrao(),
    }
}

/// The checkpoint of the block at `altura` of `blocos`, stamped with
/// `agora`: over the state that a replay up to that block yields.
pub open spec fn checkpoint_da_ponta(blocos: Seq<BlocoView>, altura: u64, agora: Instante) -> CheckpointView
    recommends
        altura < blocos.len(),
        texto_iso8601(agora.segundos, agora.nanos) is Some,
{
    checkpoint_de(
        altura,
        blocos[altura as int].hash_bloco,
        cod_estado(
            estado_ate(blocos, altura, texto_iso8601(agora.segundos, agora.nanos).unwrap()),
        ),
        agora,
    )
}

/// The verdict on a checkpoint against a chain. It fails where the chain
/// has no block of the number, and where the timestamp has no text, so
/// that the state cannot be replayed. Else the checkpoint is valid exactly
/// where its block hash is that of the block, its state root that of the
/// replayed state, and its signature the one over both.
pub open spec fn veredito_checkpoint(cp: CheckpointView, blocos: Seq<BlocoView>) -> Result<
    bool,
    Erro,
> {
    if cp.numero_bloco >= blocos.len() {
        Err(Erro::NaoEncontrado)
    } else if blocos[cp.numero_bloco as int].hash_bloco != cp.hash_bloco {
        Ok(false)
    } else {
        match texto_iso8601(cp.timestamp.segundos, cp.timestamp.nanos) {
            None => Err(Erro::TimestampSemTexto),
            Some(texto) => {
                let serializado = cod_estado(estado_ate(blocos, cp.numero_bloco, texto));
                Ok(
                    cp.merkle_root_estado == sha256(serializado) && cp.assinatura == sha256(
                        cp.hash_bloco + serializado,
                    ),
                )
            },
        }
    }
}

impl EstadoCheckpoint {
    /// The invariant of a state: each table holds one value per key.
    pub open spec fn bem_formado(&self) -> bool {
        &&& self.balances.bem_formado()
        &&& self.contratos.bem_formado()
        &&& self.nonces.bem_formado()
        &&& self.metadata.bem_formado()
    }

    /// The state of a chain without transactions.
    pub fn novo() -> (r: EstadoCheckpoint)
        ensures
            r.bem_formado(),
            r@ == estado_vazio(),
    {
        let r = EstadoCheckpoint {
            balances: MapaOrdenado::new(),
            contratos: MapaOrdenado::new(),
            nonces: MapaOrdenado::new(),
            metadata: MapaOrdenado::new(),
        };
        assert(r@.balances.chaves =~= Seq::<Seq<u8>>::empty());
        assert(r@.balances.valores =~= Seq::<u64>::empty());
        assert(r@.contratos.chaves =~= Seq::<Seq<u8>>::empty());
        assert(r@.contratos.valores =~= Seq::<Seq<u8>>::empty());
        assert(r@.nonces.chaves =~= Seq::<Seq<u8>>::empty());
        assert(r@.nonces.valores =~= Seq::<u64>::empty());
        assert(r@.metadata.chaves =~= Seq::<Seq<u8>>::empty());
        assert(r@.metadata.valores =~= Seq::<Seq<u8>>::empty());
        r
    }

    /// A copy with the same contents.
    pub fn duplicar(&self) -> (r: EstadoCheckpoint)
        requires
            self.bem_formado(),
        ensures
            r.bem_formado(),
            r@ == self@,
    {
        EstadoCheckpoint {
            balances: self.balances.duplicar(),
            contratos: self.contratos.duplicar(),
            nonces: self.nonces.duplicar(),
            metadata: self.metadata.duplicar(),
        }
    }

    /// Books one transaction on account `conta`.
    pub fn aplicar_transacao(&mut self, conta: &[u8])
        requires
            old(self).bem_formado(),
        ensures
            final(self).bem_formado(),
            final(self)@ == apos_transacao(old(self)@, conta@),
    {
        let nonce_atual = match self.nonces.obter(conta) {
            Some(n) => *n,
            None => 0,
        };
        let saldo_atual = match self.balances.obter(conta) {
            Some(s) => *s,
            None => SALDO_INICIAL,
        };
        let mut chave_nonce: Vec<u8> = Vec::new();
        chave_nonce.extend_from_slice(conta);
        assert(chave_nonce@ =~= conta@);
        let mut chave_saldo: Vec<u8> = Vec::new();
        chave_saldo.extend_from_slice(conta);
        assert(chave_saldo@ =~= conta@);
        self.nonces.inserir(chave_nonce, somar_um(nonce_atual));
        self.balances.inserir(
            chave_saldo,
            if saldo_atual == 0 {
                0
            } else {
                saldo_atual - 1
            },
        );
    }

    /// Books every transaction of `bloco` on the account named by its id.
    pub fn aplicar_transacoes_ao_estado(&mut self, bloco: &Bloco)
        requires
            old(self).bem_formado(),
        ensures
            final(self).bem_formado(),
            final(self)@ == apos_transacoes(
                old(self)@,
                bloco@.transacoes,
                bloco@.transacoes.len() as int,
            ),
    {
        let ghost txs = bloco@.transacoes;
        let mut i: usize = 0;
        while i < bloco.transacoes.len()
            invariant
                self.bem_formado(),
                i <= bloco.transacoes@.len(),
                txs == bloco@.transacoes,
                self@ == apos_transacoes(old(self)@, txs, i as int),
            decreases bloco.transacoes@.len() - i,
        {
            assert(txs[i as int] == bloco.transacoes@[i as int]@);
            self.aplicar_transacao(bloco.transacoes[i].id.as_str().as_bytes());
            i += 1;
        }
    }

    /// The serialized state.
    pub fn serializar(&self) -> (r: Vec<u8>)
        requires
            self.bem_formado(),
        ensures
            r@ == cod_estado(self@),
    {
        let mut saida: Vec<u8> = Vec::new();
        escrever_tabela_u64(&mut saida, &self.balances);
        escrever_tabela_bytes(&mut saida, &self.contratos);
        escrever_tabela_u64(&mut saida, &self.nonces);
        escrever_tabela_bytes(&mut saida, &self.metadata);
        assert(saida@ =~= cod_estado(self@));
        saida
    }
}

/// Appends a table of numbers: its number of entries, then its entries.
pub fn escrever_tabela_u64(saida: &mut Vec<u8>, tabela: &MapaOrdenado<u64>)
    requires
        tabela.bem_formado(),
    ensures
        final(saida)@ == old(saida)@ + cod_u64(tabela.chaves().len() as u64) + cod_entradas_u64(
            TabelaView { chaves: tabela.chaves(), valores: tabela.valores() },
            tabela.chaves().len() as int,
        ),
{
    let ghost t = TabelaView { chaves: tabela.chaves(), valores: tabela.valores() };
    let n = tabela.len();
    escrever_u64(saida, n as u64);
    let ghost base = saida@;
    let mut i: usize = 0;
    assert(saida@ =~= base + cod_entradas_u64(t, 0));
    while i < n
        invariant
            tabela.bem_formado(),
            i <= n,
            n == tabela.chaves().len(),
            t == (TabelaView { chaves: tabela.chaves(), valores: tabela.valores() }),
            saida@ == base + cod_entradas_u64(t, i as int),
        decreases n - i,
    {
        escrever_bytes(saida, tabela.chave_em(i).as_slice());
        escrever_u64(saida, *tabela.valor_em(i));
        assert(saida@ =~= base + cod_entradas_u64(t, i + 1));
        i += 1;
    }
}

/// Appends a table of byte strings: its number of entries, then its
/// entries.
pub fn escrever_tabela_bytes(saida: &mut Vec<u8>, tabela: &MapaOrdenado<Vec<u8>>)
    requires
        tabela.bem_formado(),
    ensures
        final(saida)@ == old(saida)@ + cod_u64(tabela.chaves().len() as u64) + cod_entradas_bytes(
            TabelaView { chaves: tabela.chaves(), valores: visoes_bytes(tabela.valores()) },
            tabela.chaves().len() as int,
        ),
{
    let ghost t = TabelaView {
        chaves: tabela.chaves(),
        valores: visoes_bytes(tabela.valores()),
    };
    let n = tabela.len();
    escrever_u64(saida, n as u64);
    let ghost base = saida@;
    let mut i: usize = 0;
    assert(saida@ =~= base + cod_entradas_bytes(t, 0));
    while i < n
        invariant
            tabela.bem_formado(),
            i <= n,
            n == tabela.chaves().len(),
            t == (TabelaView {
                chaves: tabela.chaves(),
                valores: visoes_bytes(tabela.valores()),
            }),
            saida@ == base + cod_entradas_bytes(t, i as int),
        decreases n - i,
    {
        escrever_bytes(saida, tabela.chave_em(i).as_slice());
        escrever_bytes(saida, tabela.valor_em(i).as_slice());
        assert(saida@ =~= base + cod_entradas_bytes(t, i + 1));
        i += 1;
    }
}

/// Replays `cadeia` up to block `ate_bloco` and stamps the state with
/// `timestamp`. Fails exactly where the timestamp has no ISO-8601 text.
pub fn calcular_estado_atual(cadeia: &CadeiaBlockchain, ate_bloco: u64, timestamp: Instante) -> (r:
    Result<EstadoCheckpoint, Erro>)
    ensures
        match texto_iso8601(timestamp.segundos, timestamp.nanos) {
            Some(texto) => r matches Ok(e) && e.bem_formado() && e@ == estado_ate(
                cadeia.blocos(),
                ate_bloco,
                texto,
            ),
            None => r matches Err(e) && e == Erro::TimestampSemTexto,
        },
{
    let texto = match timestamp.para_iso8601() {
        Some(t) => t,
        None => {
            return Err(Erro::TimestampSemTexto);
        },
    };
    let mut estado = EstadoCheckpoint::novo();
    let total = cadeia.obter_tamanho_cadeia();
    let mut i: usize = 0;
    while i < total && i as u64 <= ate_bloco
        invariant
            estado.bem_formado(),
            total == cadeia.blocos().len(),
            i <= blocos_cobertos(cadeia.blocos(), ate_bloco),
            estado@ == apos_blocos(cadeia.blocos(), i as int),
        decreases total - i,
    {
        match cadeia.bloco_em(i as u64) {
            Some(bloco) => {
                estado.aplicar_transacoes_ao_estado(bloco);
            },
            None => {},
        }
        i += 1;
    }
    assert(i == blocos_cobertos(cadeia.blocos(), ate_bloco));
    estado.metadata.inserir(bytes_do_texto("ultimo_bloco"), digitos_decimais(ate_bloco));
    estado.metadata.inserir(bytes_do_texto("timestamp"), texto);
    proof {
        let alvo = estado_ate(cadeia.blocos(), ate_bloco, texto@);
        assert(estado@.metadata.valores =~= alvo.metadata.valores);
        assert(estado@.metadata.chaves =~= alvo.metadata.chaves);
    }
    Ok(estado)
}

/// The key under which the state of checkpoint block `numero` is kept.
pub open spec fn chave_estado(numero: u64) -> Seq<u8> {
    cod_u64(numero)
}

/// Different block numbers have different keys.
pub proof fn lema_chave_estado_injetiva(a: u64, b: u64)
    requires
        chave_estado(a) == chave_estado(b),
    ensures
        a == b,
{
    vstd::bytes::lemma_auto_spec_u64_to_from_le_bytes();
}

/// The key under which the state of checkpoint block `numero` is kept.
pub fn chave_do_estado(numero: u64) -> (r: Vec<u8>)
    ensures
        r@ == chave_estado(numero),
{
    let mut r: Vec<u8> = Vec::new();
    escrever_u64(&mut r, numero);
    assert(r@ =~= chave_estado(numero));
    r
}

/// Whether one of the first `n` checkpoints is of block `numero`.
pub open spec fn entre_os_primeiros(checkpoints: Seq<CheckpointView>, n: int, numero: u64) -> bool {
    exists|i: int| 0 <= i < n && i < checkpoints.len() && (#[trigger] checkpoints[i]).numero_bloco
        == numero
}

pub struct SistemaCheckpoint {
    checkpoints: Vec<Checkpoint>,
    estados: MapaOrdenado<EstadoCheckpoint>,
    intervalo_checkpoint: u64,
    ultimo_checkpoint: Option<u64>,
}

impl SistemaCheckpoint {
    /// The checkpoints, oldest first.
    pub closed spec fn checkpoints(&self) -> Seq<CheckpointView> {
        visoes_checkpoints(self.checkpoints@)
    }

    /// Whether the state of checkpoint block `numero` is kept.
    pub closed spec fn tem_estado(&self, numero: u64) -> bool {
        self.estados.contem(chave_estado(numero))
    }

    /// The state of checkpoint block `numero`.
    pub closed spec fn estado_de(&self, numero: u64) -> EstadoCheckpointView {
        self.estados.valor_de(chave_estado(numero))@
    }

    /// How many states are kept.
    pub closed spec fn total_estados(&self) -> nat {
        self.estados.chaves().len()
    }

    /// The interval between checkpoints, in blocks.
    pub closed spec fn intervalo(&self) -> u64 {
        self.intervalo_checkpoint
    }

    /// The block of the latest checkpoint.
    pub closed spec fn ultimo(&self) -> Option<u64> {
        self.ultimo_checkpoint
    }

    pub closed spec fn bem_formado(&self) -> bool {
        &&& self.estados.bem_formado()
        &&& forall|i: int|
            0 <= i < self.estados.valores().len() ==> (#[trigger] self.estados.valores()[i]).bem_formado()
    }

    /// Whether a checkpoint is due at height `altura`: the interval has
    /// passed since the latest checkpoint, or since block 0 where there is
    /// none.
    pub open spec fn devido(&self, altura: u64) -> bool {
        match self.ultimo() {
            Some(ultimo) => altura >= ultimo + self.intervalo(),
            None => altura >= self.intervalo(),
        }
    }

    /// A system that makes a checkpoint every 100 blocks.
    pub fn new() -> (r: SistemaCheckpoint)
        ensures
            r.bem_formado(),
            r.checkpoints().len() == 0,
            r.total_estados() == 0,
            r.intervalo() == INTERVALO_PADRAO,
            r.ultimo() is None,
    {
        SistemaCheckpoint::new_com_intervalo(INTERVALO_PADRAO)
    }

    /// A system that makes a checkpoint every `intervalo` blocks.
    pub fn new_com_intervalo(intervalo: u64) -> (r: SistemaCheckpoint)
        ensures
            r.bem_formado(),
            r.checkpoints().len() == 0,
            r.total_estados() == 0,
            r.intervalo() == intervalo,
            r.ultimo() is None,
    {
        SistemaCheckpoint {
            checkpoints: Vec::new(),
            estados: MapaOrdenado::new(),
            intervalo_checkpoint: intervalo,
            ultimo_checkpoint: None,
        }
    }

    /// Whether a checkpoint is due at the height of `cadeia`.
    pub fn deve_criar_checkpoint(&self, cadeia: &CadeiaBlockchain) -> (r: bool)
        ensures
            r == self.devido(cadeia.altura()),
    {
        let altura_atual = cadeia.obter_altura();
        match self.ultimo_checkpoint {
            Some(ultimo_numero) => match ultimo_numero.checked_add(self.intervalo_checkpoint) {
                Some(proximo) => altura_atual >= proximo,
                None => false,
            },
            None => altura_atual >= self.intervalo_checkpoint,
        }
    }

    /// Makes a checkpoint of the tip of `cadeia`, stamped with `agora`, and
    /// keeps the state it was made of. Fails where the chain has no block
    /// at its height, and where `agora` has no ISO-8601 text; nothing
    /// changes then. A fresh checkpoint is valid against the chain.
    pub fn criar_checkpoint(&mut self, cadeia: &CadeiaBlockchain, agora: Instante) -> (r: Result<
        (),
        Erro,
    >)
        requires
            old(self).bem_formado(),
        ensures
            final(self).bem_formado(),
            final(self).intervalo() == old(self).intervalo(),
            match r {
                Ok(_) => {
                    let numero = cadeia.altura();
                    let texto = texto_iso8601(agora.segundos, agora.nanos).unwrap();
                    let estado = estado_ate(cadeia.blocos(), numero, texto);
                    let cp = checkpoint_de(
                        numero,
                        cadeia.blocos()[numero as int].hash_bloco,
                        cod_estado(estado),
                        agora,
                    );
                    &&& numero < cadeia.blocos().len()
                    &&& texto_iso8601(agora.segundos, agora.nanos) is Some
                    &&& final(self).checkpoints() == old(self).checkpoints().push(cp)
                    &&& veredito_checkpoint(cp, cadeia.blocos()) == Ok::<bool, Erro>(true)
                    &&& final(self).ultimo() == Some(numero)
                    &&& final(self).tem_estado(numero)
                    &&& final(self).estado_de(numero) == estado
                    &&& forall|n: u64|
                        n != numero ==> final(self).tem_estado(n) == old(self).tem_estado(n)
                    &&& forall|n: u64|
                        n != numero && old(self).tem_estado(n) ==> final(self).estado_de(n) == old(self).estado_de(n)
                },
                Err(e) => {
                    &&& e == if cadeia.altura() >= cadeia.blocos().len() {
                        Erro::NaoEncontrado
                    } else {
                        Erro::TimestampSemTexto
                    }
                    &&& cadeia.altura() < cadeia.blocos().len() ==> texto_iso8601(
                        agora.segundos,
                        agora.nanos,
                    ) is None
                    &&& final(self).checkpoints() == old(self).checkpoints()
                    &&& final(self).ultimo() == old(self).ultimo()
                    &&& forall|n: u64| final(self).tem_estado(n) == old(self).tem_estado(n)
                    &&& forall|n: u64| final(self).estado_de(n) == old(self).estado_de(n)
                },
            },
    {
        let altura_atual = cadeia.obter_altura();
        let bloco = match cadeia.bloco_em(altura_atual) {
            Some(b) => b,
            None => {
                return Err(Erro::NaoEncontrado);
            },
        };
        let estado = match calcular_estado_atual(cadeia, altura_atual, agora) {
            Ok(e) => e,
            Err(e) => {
                return Err(e);
            },
        };
        let serializado = estado.serializar();
        let merkle_root_estado = calcular_hash(serializado.as_slice());
        let assinatura = calcular_hash(
            concatenar(bloco.hash_bloco.as_slice(), serializado.as_slice()).as_slice(),
        );
        let mut validadores: Vec<String> = Vec::new();
        validadores.push("validador_principal".to_owned());
        let checkpoint = Checkpoint {
            numero_bloco: altura_atual,
            hash_bloco: copiar_bytes(&bloco.hash_bloco),
            merkle_root_estado,
            timestamp: agora,
            assinatura,
            validadores,
        };
        assert(checkpoint@.validadores =~= validadores_padrao());
        let ghost antes = self.checkpoints();
        let ghost visao = checkpoint@;
        self.checkpoints.push(checkpoint);
        assert(self.checkpoints() =~= antes.push(visao));
        let ghost mapa_antes = self.estados;
        self.estados.inserir(chave_do_estado(altura_atual), estado);
        self.ultimo_checkpoint = Some(altura_atual);
        proof {
            assert forall|i: int| 0 <= i < self.estados.valores().len() implies (
            #[trigger] self.estados.valores()[i]).bem_formado() by {
                if mapa_antes.contem(chave_estado(altura_atual)) {
                    let p = lugar_de(mapa_antes.chaves(), chave_estado(altura_atual));
                    if i != p {
                        assert(mapa_antes.valores()[i].bem_formado());
                    }
                } else {
                    if i < mapa_antes.valores().len() {
                        assert(mapa_antes.valores()[i].bem_formado());
                    }
                }
            }
            assert forall|n: u64| n != altura_atual implies self.tem_estado(n) == old(self).tem_estado(n) by {
                if chave_estado(n) == chave_estado(altura_atual) {
                    lema_chave_estado_injetiva(n, altura_atual);
                }
            }
            assert forall|n: u64| n != altura_atual && old(self).tem_estado(n) implies self.estado_de(
                n,
            ) == old(self).estado_de(n) by {
                if chave_estado(n) == chave_estado(altura_atual) {
                    lema_chave_estado_injetiva(n, altura_atual);
                }
            }
        }
        Ok(())
    }

    /// Makes a checkpoint where one is due at the height of `cadeia`; says
    /// whether it made one.
    pub fn processar_bloco(&mut self, cadeia: &CadeiaBlockchain, agora: Instante) -> (r: Result<
        bool,
        Erro,
    >)
        requires
            old(self).bem_formado(),
        ensures
            final(self).bem_formado(),
            final(self).intervalo() == old(self).intervalo(),
            !old(self).devido(cadeia.altura()) ==> {
                &&& r == Ok::<bool, Erro>(false)
                &&& final(self).checkpoints() == old(self).checkpoints()
                &&& final(self).ultimo() == old(self).ultimo()
            },
            old(self).devido(cadeia.altura()) ==> match r {
                Ok(feito) => {
                    let cp = checkpoint_da_ponta(cadeia.blocos(), cadeia.altura(), agora);
                    &&& feito
                    &&& cadeia.altura() < cadeia.blocos().len()
                    &&& texto_iso8601(agora.segundos, agora.nanos) is Some
                    &&& final(self).checkpoints() == old(self).checkpoints().push(cp)
                    &&& veredito_checkpoint(cp, cadeia.blocos()) == Ok::<bool, Erro>(true)
                    &&& final(self).ultimo() == Some(cadeia.altura())
                    &&& final(self).tem_estado(cadeia.altura())
                    &&& final(self).estado_de(cadeia.altura()) == estado_ate(
                        cadeia.blocos(),
                        cadeia.altura(),
                        texto_iso8601(agora.segundos, agora.nanos).unwrap(),
                    )
                },
                Err(e) => {
                    &&& final(self).checkpoints() == old(self).checkpoints()
                    &&& final(self).ultimo() == old(self).ultimo()
                    &&& e == if cadeia.altura() >= cadeia.blocos().len() {
                        Erro::NaoEncontrado
                    } else {
                        Erro::TimestampSemTexto
                    }
                    &&& cadeia.altura() < cadeia.blocos().len() ==> texto_iso8601(
                        agora.segundos,
                        agora.nanos,
                    ) is None
                },
            },
    {
        if !self.deve_criar_checkpoint(cadeia) {
            return Ok(false);
        }
        match self.criar_checkpoint(cadeia, agora) {
            Ok(_) => Ok(true),
            Err(e) => Err(e),
        }
    }

    /// Whether `checkpoint` is valid against `cadeia`: its block is there
    /// with the recorded hash, a replay yields the recorded state root,
    /// and the signature matches.
    pub fn validar_checkpoint(&self, checkpoint: &Checkpoint, cadeia: &CadeiaBlockchain) -> (r:
        Result<bool, Erro>)
        ensures
            r == veredito_checkpoint(checkpoint@, cadeia.blocos()),
    {
        let bloco = match cadeia.bloco_em(checkpoint.numero_bloco) {
            Some(b) => b,
            None => {
                return Err(Erro::NaoEncontrado);
            },
        };
        if !bytes_iguais(bloco.hash_bloco.as_slice(), checkpoint.hash_bloco.as_slice()) {
            return Ok(false);
        }
        let estado = match calcular_estado_atual(
            cadeia,
            checkpoint.numero_bloco,
            checkpoint.timestamp,
        ) {
            Ok(e) => e,
            Err(e) => {
                return Err(e);
            },
        };
        let serializado = estado.serializar();
        let merkle_calculado = calcular_hash(serializado.as_slice());
        if !bytes_iguais(merkle_calculado.as_slice(), checkpoint.merkle_root_estado.as_slice()) {
            return Ok(false);
        }
        let assinatura_calculada = calcular_hash(
            concatenar(bloco.hash_bloco.as_slice(), serializado.as_slice()).as_slice(),
        );
        Ok(bytes_iguais(assinatura_calculada.as_slice(), checkpoint.assinatura.as_slice()))
    }

    /// The latest checkpoint.
    pub fn obter_checkpoint_mais_recente(&self) -> (r: Option<Checkpoint>)
        ensures
            r is Some <==> self.checkpoints().len() > 0,
            r matches Some(c) ==> c@ == self.checkpoints().last(),
    {
        let n = self.checkpoints.len();
        if n == 0 {
            return None;
        }
        assert(self.checkpoints()[n - 1] == self.checkpoints@[n - 1]@);
        Some(self.checkpoints[n - 1].duplicar())
    }

    /// The state of checkpoint block `numero_bloco`.
    pub fn obter_estado_checkpoint(&self, numero_bloco: u64) -> (r: Option<EstadoCheckpoint>)
        requires
            self.bem_formado(),
        ensures
            r is Some <==> self.tem_estado(numero_bloco),
            r matches Some(e) ==> e.bem_formado() && e@ == self.estado_de(numero_bloco),
    {
        let chave = chave_do_estado(numero_bloco);
        match self.estados.posicao_de(chave.as_slice()) {
            Some(i) => {
                assert(self.estados.valores()[i as int].bem_formado());
                Some(self.estados.valor_em(i).duplicar())
            },
            None => None,
        }
    }

    /// The state of checkpoint block `numero_bloco`; fails where none is
    /// kept.
    pub fn restaurar_de_checkpoint(&self, numero_bloco: u64) -> (r: Result<EstadoCheckpoint, Erro>)
        requires
            self.bem_formado(),
        ensures
            r is Ok <==> self.tem_estado(numero_bloco),
            r matches Ok(e) ==> e.bem_formado() && e@ == self.estado_de(numero_bloco),
            r matches Err(e) ==> e == Erro::NaoEncontrado,
    {
        match self.obter_estado_checkpoint(numero_bloco) {
            Some(e) => Ok(e),
            None => Err(Erro::NaoEncontrado),
        }
    }

    /// Keeps the `manter_ultimos` latest checkpoints and drops the others
    /// with the states of their blocks.
    pub fn limpar_checkpoints_antigos(&mut self, manter_ultimos: usize)
        requires
            old(self).bem_formado(),
        ensures
            final(self).bem_formado(),
            final(self).intervalo() == old(self).intervalo(),
            final(self).ultimo() == old(self).ultimo(),
            ({
                let corte = if old(self).checkpoints().len() > manter_ultimos {
                    old(self).checkpoints().len() - manter_ultimos
                } else {
                    0
                };
                &&& final(self).checkpoints() == old(self).checkpoints().skip(corte)
                &&& forall|n: u64|
                    final(self).tem_estado(n) == (old(self).tem_estado(n) && !entre_os_primeiros(
                        old(self).checkpoints(),
                        corte,
                        n,
                    ))
                &&& forall|n: u64|
                    final(self).tem_estado(n) ==> final(self).estado_de(n) == old(self).estado_de(n)
            }),
    {
        let total = self.checkpoints.len();
        if total <= manter_ultimos {
            assert(self.checkpoints().skip(0) =~= self.checkpoints());
            return ;
        }
        let remover_ate = total - manter_ultimos;
        let ghost antigos = self.checkpoints();
        let mut i: usize = 0;
        while i < remover_ate
            invariant
                i <= remover_ate <= total,
                total == self.checkpoints@.len(),
                self.checkpoints@ == old(self).checkpoints@,
                antigos == old(self).checkpoints(),
                self.intervalo() == old(self).intervalo(),
                self.ultimo() == old(self).ultimo(),
                self.bem_formado(),
                forall|n: u64|
                    self.tem_estado(n) == (old(self).tem_estado(n) && !entre_os_primeiros(
                        antigos,
                        i as int,
                        n,
                    )),
                forall|n: u64| self.tem_estado(n) ==> self.estado_de(n) == old(self).estado_de(n),
            decreases remover_ate - i,
        {
            let numero = self.checkpoints[i].numero_bloco;
            assert(antigos[i as int] == self.checkpoints@[i as int]@);
            let chave = chave_do_estado(numero);
            let ghost mapa_antes = self.estados;
            let ghost este = *self;
            self.estados.remover(chave.as_slice());
            proof {
                assert forall|k: int| 0 <= k < self.estados.valores().len() implies (
                #[trigger] self.estados.valores()[k]).bem_formado() by {
                    if mapa_antes.contem(chave@) {
                        let p = lugar_de(mapa_antes.chaves(), chave@);
                        let k0 = if k < p {
                            k
                        } else {
                            k + 1
                        };
                        assert(mapa_antes.valores()[k0].bem_formado());
                    } else {
                        assert(mapa_antes.valores()[k].bem_formado());
                    }
                }
                assert forall|n: u64| self.tem_estado(n) == (old(self).tem_estado(n)
                    && !entre_os_primeiros(antigos, i + 1, n)) by {
                    if chave_estado(n) == chave_estado(numero) {
                        lema_chave_estado_injetiva(n, numero);
                    }
                    if n == numero {
                        assert(antigos[i as int].numero_bloco == n);
                    } else {
                        assert(self.tem_estado(n) == este.tem_estado(n));
                        if entre_os_primeiros(antigos, i + 1, n) {
                            let j = choose|j: int|
                                0 <= j < i + 1 && j < antigos.len() && (
                                #[trigger] antigos[j]).numero_bloco == n;
                            assert(j < i);
                        }
                    }
                }
                assert forall|n: u64| self.tem_estado(n) implies self.estado_de(n) == old(self).estado_de(n) by {
                    if chave_estado(n) == chave_estado(numero) {
                        lema_chave_estado_injetiva(n, numero);
                    }
                    assert(este.tem_estado(n));
                }
            }
            i += 1;
        }
        let restantes = self.checkpoints.split_off(remover_ate);
        self.checkpoints = restantes;
        assert(self.checkpoints() =~= antigos.skip(remover_ate as int));
    }

    /// The counters of the system, in this order: `total_checkpoints`,
    /// `total_estados`, `intervalo_checkpoint`, and `ultimo_checkpoint`
    /// where there is one.
    pub fn obter_estatisticas(&self) -> (r: Vec<(String, u64)>)
        ensures
            r@.len() == if self.ultimo() is Some {
                4int
            } else {
                3int
            },
            contador(r@[0], "total_checkpoints"@, self.checkpoints().len() as int),
            contador(r@[1], "total_estados"@, self.total_estados() as int),
            contador(r@[2], "intervalo_checkpoint"@, self.intervalo() as int),
            self.ultimo() matches Some(n) ==> contador(r@[3], "ultimo_checkpoint"@, n as int),
    {
        let mut r: Vec<(String, u64)> = Vec::new();
        r.push(("total_checkpoints".to_owned(), self.checkpoints.len() as u64));
        r.push(("total_estados".to_owned(), self.estados.len() as u64));
        r.push(("intervalo_checkpoint".to_owned(), self.intervalo_checkpoint));
        match self.ultimo_checkpoint {
            Some(ultimo) => {
                r.push(("ultimo_checkpoint".to_owned(), ultimo));
            },
            None => {},
        }
        r
    }
}

} // verus!
