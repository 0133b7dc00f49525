//! The chain store: an append-only list of blocks under the admission rules
//! and the difficulty policy.

use vstd::prelude::*;
use crate::blockchain::bloco::{
    falha_de_estrutura, cumpre_dificuldade, estrutura_valida, genese_sem_minerar, minerado_com, prova_de_trabalho, raiz_transacoes, sem_prova_abaixo, Bloco, BlocoView, TENTATIVAS_MINERACAO,
};
use crate::blockchain::persistencia::{
    decodificados, decodificar_registros, inserir_bloco_ordenado, ordenar_por_numero, visoes_registros,
};
use crate::consenso::merkle::arvore::hash_zero_vec;
use crate::consenso::tipos::{
    bytes_iguais, copiar_bytes, hash_zero, visoes_transacoes, Transacao, TransacaoView,
};
use crate::erro::Erro;
use crate::tempo::{texto_iso8601, Instante};

verus! {

/// Every how many blocks the difficulty is looked at.
pub const PERIODO_AJUSTE: usize = 10;

/// The chain length above which a look raises the difficulty.
pub const TAMANHO_SEM_AJUSTE: usize = 20;

/// The difficulty of an empty chain.
pub const DIFICULDADE_INICIAL: u32 = 1;

/// Whether reaching length `n` raises the difficulty by one.
pub open spec fn sobe_em(n: nat) -> bool {
    n % (PERIODO_AJUSTE as nat) == 0 && n > TAMANHO_SEM_AJUSTE
}

/// The difficulty that the policy gives a chain of `n` blocks, before the
/// machine limit: 1, raised by one at every length that is a multiple of 10
/// above 20.
pub open spec fn dificuldade_apos(n: nat) -> nat
    decreases n,
{
    if n == 0 {
        DIFICULDADE_INICIAL as nat
    } else {
        dificuldade_apos((n - 1) as nat) + if sobe_em(n) {
            1nat
        } else {
            0nat
        }
    }
}

/// The current difficulty of a chain of `n` blocks: the policy's, held at
/// the largest `u32`.
pub open spec fn dificuldade_corrente(n: nat) -> u32 {
    if dificuldade_apos(n) > u32::MAX {
        u32::MAX
    } else {
        dificuldade_apos(n) as u32
    }
}

/// The links of a chain: block `i` has number `i`, block 0 points at the
/// zero hash, and every other block at the hash of the one before it.
pub open spec fn ligada(blocos: Seq<BlocoView>) -> bool {
    forall|i: int|
        0 <= i < blocos.len() ==> {
            &&& (#[trigger] blocos[i]).numero == i
            &&& i == 0 ==> blocos[i].hash_anterior == hash_zero()
            &&& i > 0 ==> blocos[i].hash_anterior == blocos[i - 1].hash_bloco
        }
}

/// The link rule of admission: the block extends the tip, or is a genesis
/// for an empty chain.
pub open spec fn estende(blocos: Seq<BlocoView>, b: BlocoView) -> bool {
    if blocos.len() > 0 {
        b.numero == blocos.last().numero + 1 && b.hash_anterior == blocos.last().hash_bloco
    } else {
        b.numero == 0 && b.hash_anterior == hash_zero()
    }
}

/// The admission rules: structure, proof-of-work at the declared
/// difficulty, and the link.
pub open spec fn admissivel(blocos: Seq<BlocoView>, b: BlocoView) -> bool {
    &&& estrutura_valida(b)
    &&& cumpre_dificuldade(b.hash_bloco, b.dificuldade)
    &&& estende(blocos, b)
}

/// Why a block is refused, by the first rule that it breaks.
pub open spec fn motivo_rejeicao(blocos: Seq<BlocoView>, b: BlocoView) -> Option<Erro> {
    if falha_de_estrutura(b) is Some {
        falha_de_estrutura(b)
    } else if !cumpre_dificuldade(b.hash_bloco, b.dificuldade) {
        Some(Erro::DificuldadeNaoAtingida)
    } else if blocos.len() > 0 && b.numero != blocos.last().numero + 1 {
        Some(Erro::ForaDeSequencia)
    } else if blocos.len() == 0 && b.numero != 0 {
        Some(Erro::ForaDeSequencia)
    } else if !estende(blocos, b) {
        Some(Erro::LigacaoInvalida)
    } else {
        None
    }
}

/// Why an append is refused: the first admission rule that the block
/// breaks, or, for an admissible block, that the chain is full.
pub open spec fn motivo_recusa(blocos: Seq<BlocoView>, b: BlocoView) -> Option<Erro> {
    if motivo_rejeicao(blocos, b) is Some {
        motivo_rejeicao(blocos, b)
    } else if blocos.len() >= usize::MAX {
        Some(Erro::CadeiaCheia)
    } else {
        None
    }
}

/// The difficulty after an append that brings the chain to `n` blocks,
/// from the difficulty `d` before it: one more where `n` is a multiple of
/// 10 above 20, held at the largest `u32`; else `d`.
pub open spec fn ajustada(d: u32, n: nat) -> u32 {
    if sobe_em(n) && d < u32::MAX {
        (d + 1) as u32
    } else {
        d
    }
}

/// What a full sweep checks: every block is structurally valid, meets its
/// difficulty, and links to its predecessor.
pub open spec fn cadeia_valida(blocos: Seq<BlocoView>) -> bool {
    forall|i: int|
        0 <= i < blocos.len() ==> {
            &&& estrutura_valida(#[trigger] blocos[i])
            &&& cumpre_dificuldade(blocos[i].hash_bloco, blocos[i].dificuldade)
            &&& i > 0 ==> blocos[i].hash_anterior == blocos[i - 1].hash_bloco
        }
}

/// The views of a list of blocks, in order.
pub open spec fn visoes_blocos(blocos: Seq<Bloco>) -> Seq<BlocoView> {
    Seq::new(blocos.len(), |i: int| blocos[i]@)
}

/// The number that the next block must carry.
pub open spec fn proximo_numero(blocos: Seq<BlocoView>) -> int {
    if blocos.len() > 0 {
        blocos.last().numero + 1
    } else {
        0
    }
}

/// The hash that the next block must point at.
pub open spec fn hash_da_ponta(blocos: Seq<BlocoView>) -> Seq<u8> {
    if blocos.len() > 0 {
        blocos.last().hash_bloco
    } else {
        hash_zero()
    }
}

/// The id under which a chain mines its own blocks.
pub open spec fn minerador_da_cadeia() -> Seq<char> {
    "minerador_atual"@
}

/// The next block of a chain before mining: on top of the tip, over `txs`,
/// at nonce 0 and the given difficulty, hashed and signed.
pub open spec fn candidato(
    blocos: Seq<BlocoView>,
    txs: Seq<TransacaoView>,
    timestamp: Instante,
    dificuldade: u32,
) -> BlocoView {
    let cabecalho = BlocoView {
        numero: proximo_numero(blocos) as u64,
        hash_anterior: hash_da_ponta(blocos),
        merkle_root: raiz_transacoes(txs).unwrap(),
        timestamp,
        nonce: 0,
        transacoes: txs,
        hash_bloco: Seq::empty(),
        assinatura_minerador: Seq::empty(),
        minerador_id: minerador_da_cadeia(),
        dificuldade,
    };
    minerado_com(cabecalho, 0)
}

/// Whether a next block can be built at all: the number fits, and every
/// timestamp has its text.
pub open spec fn candidato_existe(
    blocos: Seq<BlocoView>,
    txs: Seq<TransacaoView>,
    timestamp: Instante,
) -> bool {
    &&& proximo_numero(blocos) <= u64::MAX
    &&& raiz_transacoes(txs).is_some()
    &&& texto_iso8601(timestamp.segundos, timestamp.nanos).is_some()
}

/// Whether every block was declared at the difficulty that the policy gave
/// the chain when the block was made.
pub open spec fn segue_politica(blocos: Seq<BlocoView>) -> bool {
    forall|i: int|
        0 <= i < blocos.len() ==> (#[trigger] blocos[i]).dificuldade == dificuldade_corrente(
            i as nat,
        )
}

/// The total number of transactions in the blocks.
pub open spec fn total_transacoes(blocos: Seq<BlocoView>) -> nat
    decreases blocos.len(),
{
    if blocos.len() == 0 {
        0
    } else {
        total_transacoes(blocos.drop_last()) + blocos.last().transacoes.len()
    }
}

/// The policy in closed form: one, plus one for every full ten blocks
/// beyond the first twenty.
pub proof fn lema_dificuldade_fechada(n: nat)
    ensures
        dificuldade_apos(n) == 1 + if n >= 20 {
            n / 10 - 2
        } else {
            0
        },
    decreases n,
{
    if n > 0 {
        lema_dificuldade_fechada((n - 1) as nat);
    }
}

/// A named counter of a statistics report.
pub open spec fn contador(par: (String, u64), nome: Seq<char>, valor: int) -> bool {
    par.0@ == nome && par.1 == if valor > u64::MAX {
        u64::MAX
    } else {
        valor as u64
    }
}

/// A linked chain with one more block that extends its tip is linked: the
/// new block carries the next number and points at the hash of the old tip.
pub proof fn lei_ligacao_mantida(blocos: Seq<BlocoView>, b: BlocoView)
    requires
        ligada(blocos),
        estende(blocos, b),
    ensures
        ligada(blocos.push(b)),
        b.numero == blocos.len(),
        blocos.len() > 0 ==> b.hash_anterior == blocos.last().hash_bloco && b.numero
            == blocos.last().numero + 1,
{
    let depois = blocos.push(b);
    if blocos.len() > 0 {
        assert(blocos[blocos.len() - 1].numero == blocos.len() - 1);
    }
    assert forall|i: int| 0 <= i < depois.len() implies {
        &&& (#[trigger] depois[i]).numero == i
        &&& i == 0 ==> depois[i].hash_anterior == hash_zero()
        &&& i > 0 ==> depois[i].hash_anterior == depois[i - 1].hash_bloco
    } by {
        if i < blocos.len() {
            assert(depois[i] == blocos[i]);
            if i > 0 {
                assert(depois[i - 1] == blocos[i - 1]);
            }
        }
    }
}

/// The policy's difficulty for `n` blocks is the adjustment of the one for
/// `n - 1` blocks.
pub proof fn lema_passo_da_politica(n: nat)
    requires
        n >= 1,
    ensures
        dificuldade_corrente(n) == ajustada(dificuldade_corrente((n - 1) as nat), n),
{
    lei_politica_monotona((n - 1) as nat, n);
}

/// The policy never lowers the difficulty.
pub proof fn lei_politica_monotona(m: nat, n: nat)
    requires
        m <= n,
    ensures
        dificuldade_apos(m) <= dificuldade_apos(n),
        dificuldade_corrente(m) <= dificuldade_corrente(n),
    decreases n - m,
{
    if m < n {
        lei_politica_monotona(m, (n - 1) as nat);
    }
}

/// In a chain whose blocks were declared at the chain's current difficulty,
/// difficulty never decreases from one block to a later one.
pub proof fn lei_dificuldade_nao_decresce(blocos: Seq<BlocoView>, i: int, j: int)
    requires
        segue_politica(blocos),
        0 <= i < j < blocos.len(),
    ensures
        blocos[i].dificuldade <= blocos[j].dificuldade,
{
    lei_politica_monotona(i as nat, j as nat);
}

/// A chain that follows the policy still follows it with one more block
/// that was declared at the chain's current difficulty, as the blocks that
/// the chain builds itself are.
pub proof fn lei_politica_preservada(blocos: Seq<BlocoView>, b: BlocoView)
    requires
        segue_politica(blocos),
        b.dificuldade == dificuldade_corrente(blocos.len()),
    ensures
        segue_politica(blocos.push(b)),
{
    let depois = blocos.push(b);
    assert forall|i: int| 0 <= i < depois.len() implies (#[trigger] depois[i]).dificuldade
        == dificuldade_corrente(i as nat) by {
        if i < blocos.len() {
            assert(depois[i] == blocos[i]);
        }
    }
}

/// In a well-formed chain every block but the first points at the hash of
/// its predecessor and carries the next number.
pub proof fn lei_cadeia_ligada(cadeia: CadeiaBlockchain, i: int)
    requires
        cadeia.bem_formada(),
        1 <= i < cadeia.blocos().len(),
    ensures
        cadeia.blocos()[i].hash_anterior == cadeia.blocos()[i - 1].hash_bloco,
        cadeia.blocos()[i].numero == cadeia.blocos()[i - 1].numero + 1,
{
}

pub struct CadeiaBlockchain {
    blocos: Vec<Bloco>,
    altura_atual: u64,
    dificuldade_atual: u32,
}

impl CadeiaBlockchain {
    /// The blocks, oldest first.
    pub closed spec fn blocos(&self) -> Seq<BlocoView> {
        visoes_blocos(self.blocos@)
    }

    /// The number of the tip, 0 for an empty chain.
    pub closed spec fn altura(&self) -> u64 {
        self.altura_atual
    }

    /// The difficulty that the next block is to be mined at.
    pub closed spec fn dificuldade(&self) -> u32 {
        self.dificuldade_atual
    }

    /// The invariant of the store.
    pub open spec fn bem_formada(&self) -> bool {
        &&& ligada(self.blocos())
        &&& self.blocos().len() <= usize::MAX
        &&& self.altura() == if self.blocos().len() == 0 {
            0
        } else {
            self.blocos().len() - 1
        }
        &&& self.dificuldade() == dificuldade_corrente(self.blocos().len())
    }

    /// An empty chain at difficulty 1.
    pub fn new() -> (r: CadeiaBlockchain)
        ensures
            r.bem_formada(),
            r.blocos().len() == 0,
    {
        CadeiaBlockchain { blocos: Vec::new(), altura_atual: 0, dificuldade_atual: DIFICULDADE_INICIAL }
    }

    /// Whether `bloco` passes every admission rule against the current tip.
    pub fn validar_bloco_para_adicao(&self, bloco: &Bloco) -> (r: bool)
        requires
            self.bem_formada(),
        ensures
            r == admissivel(self.blocos(), bloco@),
            r == (motivo_rejeicao(self.blocos(), bloco@) is None),
    {
        self.classificar(bloco).is_none()
    }

    /// The first admission rule that `bloco` breaks, if any.
    pub fn classificar(&self, bloco: &Bloco) -> (r: Option<Erro>)
        requires
            self.bem_formada(),
        ensures
            r == motivo_rejeicao(self.blocos(), bloco@),
            r is None <==> admissivel(self.blocos(), bloco@),
    {
        match bloco.diagnosticar_estrutura() {
            Some(e) => {
                return Some(e);
            },
            None => {},
        }
        if !bloco.validar_dificuldade() {
            return Some(Erro::DificuldadeNaoAtingida);
        }
        let n = self.blocos.len();
        if n > 0 {
            let ultimo = &self.blocos[n - 1];
            assert(self.blocos().last() == ultimo@);
            if ultimo.numero == u64::MAX || bloco.numero != ultimo.numero + 1 {
                return Some(Erro::ForaDeSequencia);
            }
            if !bytes_iguais(bloco.hash_anterior.as_slice(), ultimo.hash_bloco.as_slice()) {
                return Some(Erro::LigacaoInvalida);
            }
        } else {
            if bloco.numero != 0 {
                return Some(Erro::ForaDeSequencia);
            }
            let zero = hash_zero_vec();
            if !bytes_iguais(bloco.hash_anterior.as_slice(), zero.as_slice()) {
                return Some(Erro::LigacaoInvalida);
            }
        }
        None
    }

    /// Appends `bloco` where it passes the admission rules, and then applies
    /// the difficulty policy; refuses it otherwise and leaves the chain as
    /// it was.
    pub fn adicionar_bloco(&mut self, bloco: Bloco) -> (r: Result<(), Erro>)
        requires
            old(self).bem_formada(),
        ensures
            final(self).bem_formada(),
            ligada(final(self).blocos()),
            r is Ok <==> admissivel(old(self).blocos(), bloco@) && old(self).blocos().len()
                < usize::MAX,
            r matches Err(e) ==> motivo_recusa(old(self).blocos(), bloco@) == Some(e),
            r is Ok ==> {
                &&& final(self).blocos() == old(self).blocos().push(bloco@)
                &&& bloco.numero == old(self).blocos().len()
                &&& old(self).blocos().len() > 0 ==> bloco@.hash_anterior
                    == old(self).blocos().last().hash_bloco
                &&& final(self).altura() == bloco.numero
                &&& final(self).dificuldade() == ajustada(
                    old(self).dificuldade(),
                    final(self).blocos().len(),
                )
            },
            r is Err ==> {
                &&& final(self).blocos() == old(self).blocos()
                &&& final(self).altura() == old(self).altura()
                &&& final(self).dificuldade() == old(self).dificuldade()
            },
            final(self).dificuldade() >= old(self).dificuldade(),
    {
        match self.classificar(&bloco) {
            Some(e) => {
                return Err(e);
            },
            None => {},
        }
        if self.blocos.len() == usize::MAX {
            return Err(Erro::CadeiaCheia);
        }
        proof {
            lei_ligacao_mantida(self.blocos(), bloco@);
            lema_passo_da_politica((self.blocos().len() + 1) as nat);
        }
        let ghost antes = self.blocos();
        let numero = bloco.numero;
        let ghost visao = bloco@;
        self.blocos.push(bloco);
        assert(self.blocos() =~= antes.push(visao));
        self.altura_atual = numero;
        self.ajustar_dificuldade();
        Ok(())
    }

    /// Inserts a freshly mined genesis block into an empty chain; leaves a
    /// chain that has blocks as it is.
    pub fn inicializar_com_genesis(&mut self, timestamp: Instante) -> (r: Result<(), Erro>)
        requires
            old(self).bem_formada(),
        ensures
            final(self).bem_formada(),
            old(self).blocos().len() > 0 ==> r is Ok && final(self).blocos() == old(self).blocos(),
            old(self).blocos().len() == 0 ==> match r {
                Ok(_) => {
                    &&& final(self).blocos().len() == 1
                    &&& final(self).blocos()[0].nonce < TENTATIVAS_MINERACAO
                    &&& final(self).blocos()[0] == minerado_com(
                        genese_sem_minerar(timestamp),
                        final(self).blocos()[0].nonce,
                    )
                    &&& sem_prova_abaixo(
                        genese_sem_minerar(timestamp),
                        final(self).blocos()[0].nonce,
                    )
                    &&& cadeia_valida(final(self).blocos())
                    &&& segue_politica(final(self).blocos())
                },
                Err(e) => {
                    &&& final(self).blocos().len() == 0
                    &&& if texto_iso8601(timestamp.segundos, timestamp.nanos).is_some() {
                        e == Erro::DificuldadeNaoAtingida && sem_prova_abaixo(
                            genese_sem_minerar(timestamp),
                            TENTATIVAS_MINERACAO,
                        )
                    } else {
                        e == Erro::TimestampSemTexto
                    }
                },
            },
    {
        if self.blocos.len() > 0 {
            return Ok(());
        }
        let genese = match Bloco::genesis(timestamp) {
            Ok(g) => g,
            Err(e) => {
                return Err(e);
            },
        };
        self.adicionar_bloco(genese)
    }

    /// Builds the next block over `transacoes` on top of the tip, at the
    /// chain's current difficulty, and mines it. Fails where the block
    /// cannot be built, and where none of the first `TENTATIVAS_MINERACAO`
    /// nonces meets the difficulty.
    pub fn criar_proximo_bloco(&self, transacoes: Vec<Transacao>, timestamp: Instante) -> (r:
        Result<Bloco, Erro>)
        requires
            self.bem_formada(),
        ensures
            match r {
                Ok(b) => {
                    let base = candidato(
                        self.blocos(),
                        visoes_transacoes(transacoes@),
                        timestamp,
                        self.dificuldade(),
                    );
                    &&& candidato_existe(self.blocos(), visoes_transacoes(transacoes@), timestamp)
                    &&& b.nonce < TENTATIVAS_MINERACAO
                    &&& prova_de_trabalho(base, b.nonce)
                    &&& sem_prova_abaixo(base, b.nonce)
                    &&& b@ == minerado_com(base, b.nonce)
                    &&& b.dificuldade == self.dificuldade()
                    &&& admissivel(self.blocos(), b@)
                    &&& segue_politica(self.blocos()) ==> segue_politica(self.blocos().push(b@))
                },
                Err(e) => if proximo_numero(self.blocos()) > u64::MAX {
                    e == Erro::ForaDeSequencia
                } else if !candidato_existe(
                    self.blocos(),
                    visoes_transacoes(transacoes@),
                    timestamp,
                ) {
                    e == Erro::TimestampSemTexto
                } else {
                    e == Erro::DificuldadeNaoAtingida && sem_prova_abaixo(
                        candidato(
                            self.blocos(),
                            visoes_transacoes(transacoes@),
                            timestamp,
                            self.dificuldade(),
                        ),
                        TENTATIVAS_MINERACAO,
                    )
                },
            },
    {
        let n = self.blocos.len();
        let (numero, hash_anterior) = if n > 0 {
            let ultimo = &self.blocos[n - 1];
            assert(self.blocos().last() == ultimo@);
            if ultimo.numero == u64::MAX {
                return Err(Erro::ForaDeSequencia);
            }
            (ultimo.numero + 1, copiar_bytes(&ultimo.hash_bloco))
        } else {
            (0, hash_zero_vec())
        };
        let mut bloco = match Bloco::new(
            numero,
            hash_anterior,
            transacoes,
            "minerador_atual".to_owned(),
            self.dificuldade_atual,
            timestamp,
        ) {
            Ok(b) => b,
            Err(e) => {
                return Err(e);
            },
        };
        let ghost base = candidato(
            self.blocos(),
            visoes_transacoes(transacoes@),
            timestamp,
            self.dificuldade(),
        );
        assert(bloco@ == base);
        proof {
            if segue_politica(self.blocos()) {
                lei_politica_preservada(
                    self.blocos(),
                    BlocoView { dificuldade: self.dificuldade(), ..base },
                );
            }
        }
        match bloco.minerar(TENTATIVAS_MINERACAO) {
            Ok(true) => Ok(bloco),
            Ok(false) => Err(Erro::DificuldadeNaoAtingida),
            Err(e) => Err(e),
        }
    }

    /// The block with hash `hash`; the latest one where several carry it.
    pub fn obter_bloco_por_hash(&self, hash: &[u8]) -> (r: Option<Bloco>)
        ensures
            match r {
                Some(b) => exists|i: int|
                    {
                        &&& 0 <= i < self.blocos().len()
                        &&& #[trigger] self.blocos()[i] == b@
                        &&& b@.hash_bloco == hash@
                        &&& forall|j: int|
                            i < j < self.blocos().len() ==> (#[trigger] self.blocos()[j]).hash_bloco
                                != hash@
                    },
                None => forall|j: int|
                    0 <= j < self.blocos().len() ==> (#[trigger] self.blocos()[j]).hash_bloco
                        != hash@,
            },
    {
        let mut i: usize = self.blocos.len();
        while i > 0
            invariant
                i <= self.blocos@.len(),
                forall|j: int|
                    i <= j < self.blocos().len() ==> (#[trigger] self.blocos()[j]).hash_bloco
                        != hash@,
            decreases i,
        {
            i -= 1;
            assert(self.blocos()[i as int] == self.blocos@[i as int]@);
            if bytes_iguais(self.blocos[i].hash_bloco.as_slice(), hash) {
                return Some(self.blocos[i].duplicar());
            }
        }
        None
    }

    /// The block at position `numero`.
    pub fn obter_bloco_por_numero(&self, numero: u64) -> (r: Option<Bloco>)
        ensures
            r is Some <==> numero < self.blocos().len(),
            r matches Some(b) ==> b@ == self.blocos()[numero as int],
            self.bem_formada() ==> (r matches Some(b) ==> b.numero == numero),
    {
        if numero >= self.blocos.len() as u64 {
            return None;
        }
        let i = numero as usize;
        assert(self.blocos()[i as int] == self.blocos@[i as int]@);
        Some(self.blocos[i].duplicar())
    }

    /// The block at position `numero`, in place.
    pub fn bloco_em(&self, numero: u64) -> (r: Option<&Bloco>)
        ensures
            r is Some <==> numero < self.blocos().len(),
            r matches Some(b) ==> b@ == self.blocos()[numero as int],
    {
        if numero >= self.blocos.len() as u64 {
            return None;
        }
        let i = numero as usize;
        assert(self.blocos()[i as int] == self.blocos@[i as int]@);
        Some(&self.blocos[i])
    }

    /// The tip.
    pub fn obter_ultimo_bloco(&self) -> (r: Option<Bloco>)
        ensures
            r is Some <==> self.blocos().len() > 0,
            r matches Some(b) ==> b@ == self.blocos().last(),
    {
        let n = self.blocos.len();
        if n == 0 {
            return None;
        }
        assert(self.blocos()[n - 1] == self.blocos@[n - 1]@);
        Some(self.blocos[n - 1].duplicar())
    }

    pub fn obter_altura(&self) -> (r: u64)
        ensures
            r == self.altura(),
    {
        self.altura_atual
    }

    pub fn obter_tamanho_cadeia(&self) -> (r: usize)
        ensures
            r == self.blocos().len(),
    {
        self.blocos.len()
    }

    pub fn obter_dificuldade(&self) -> (r: u32)
        ensures
            r == self.dificuldade(),
    {
        self.dificuldade_atual
    }

    /// The full sweep: every block validates structurally, meets its
    /// difficulty, and links to its predecessor.
    pub fn validar_cadeia_completa(&self) -> (r: bool)
        ensures
            r == cadeia_valida(self.blocos()),
    {
        let mut i: usize = 0;
        while i < self.blocos.len()
            invariant
                i <= self.blocos@.len(),
                cadeia_valida(self.blocos().take(i as int)),
            decreases self.blocos@.len() - i,
        {
            let bloco = &self.blocos[i];
            assert(self.blocos()[i as int] == bloco@);
            if !bloco.validar_estrutura() || !bloco.validar_dificuldade() {
                return false;
            }
            if i > 0 {
                let anterior = &self.blocos[i - 1];
                assert(self.blocos()[i - 1] == anterior@);
                if !bytes_iguais(bloco.hash_anterior.as_slice(), anterior.hash_bloco.as_slice()) {
                    return false;
                }
            }
            assert(cadeia_valida(self.blocos().take(i + 1))) by {
                let depois = self.blocos().take(i + 1);
                let antes = self.blocos().take(i as int);
                assert forall|k: int| 0 <= k < depois.len() implies {
                    &&& estrutura_valida(#[trigger] depois[k])
                    &&& cumpre_dificuldade(depois[k].hash_bloco, depois[k].dificuldade)
                    &&& k > 0 ==> depois[k].hash_anterior == depois[k - 1].hash_bloco
                } by {
                    if k < i {
                        assert(depois[k] == antes[k]);
                        if k > 0 {
                            assert(depois[k - 1] == antes[k - 1]);
                        }
                    }
                }
            }
            i += 1;
        }
        assert(self.blocos().take(self.blocos@.len() as int) =~= self.blocos());
        true
    }

    /// Rebuilds a chain from a scan of the key-value store: every record
    /// under a block key is decoded, the blocks are put in order of number,
    /// and the result must be a linked chain numbered from 0. The current
    /// difficulty is the policy's for that length.
    pub fn carregar_dados_do_banco(registros: &Vec<(Vec<u8>, Vec<u8>)>) -> (r: Result<
        CadeiaBlockchain,
        Erro,
    >)
        ensures
            match decodificados(visoes_registros(registros@)) {
                None => r matches Err(e) && e == Erro::Decodificacao,
                Some(lidos) => if ligada(ordenar_por_numero(lidos)) {
                    r matches Ok(c) && c.bem_formada() && c.blocos() == ordenar_por_numero(lidos)
                } else {
                    r matches Err(e) && e == Erro::Persistencia
                },
            },
    {
        let lidos = match decodificar_registros(registros) {
            Ok(b) => b,
            Err(e) => {
                return Err(e);
            },
        };
        let ghost entrada = visoes_blocos(lidos@);
        let mut blocos: Vec<Bloco> = Vec::new();
        let mut j: usize = 0;
        assert(entrada.take(0) =~= Seq::<BlocoView>::empty());
        assert(visoes_blocos(blocos@) =~= ordenar_por_numero(entrada.take(0)));
        while j < lidos.len()
            invariant
                j <= lidos@.len(),
                entrada == visoes_blocos(lidos@),
                visoes_blocos(blocos@) == ordenar_por_numero(entrada.take(j as int)),
            decreases lidos@.len() - j,
        {
            assert(entrada.take(j + 1).drop_last() =~= entrada.take(j as int));
            assert(entrada.take(j + 1).last() == lidos@[j as int]@);
            inserir_bloco_ordenado(&mut blocos, lidos[j].duplicar());
            j += 1;
        }
        assert(entrada.take(lidos@.len() as int) =~= entrada);
        let ghost ordenados = visoes_blocos(blocos@);
        let n = blocos.len();
        let zero = hash_zero_vec();
        let mut i: usize = 0;
        while i < n
            invariant
                i <= n,
                n == blocos@.len(),
                ordenados == visoes_blocos(blocos@),
                ordenados == ordenar_por_numero(entrada),
                decodificados(visoes_registros(registros@)) == Some(entrada),
                zero@ == hash_zero(),
                ligada(ordenados.take(i as int)),
            decreases n - i,
        {
            let bloco = &blocos[i];
            assert(ordenados[i as int] == bloco@);
            let ligado = if i == 0 {
                bytes_iguais(bloco.hash_anterior.as_slice(), zero.as_slice())
            } else {
                assert(ordenados[i - 1] == blocos@[i - 1]@);
                bytes_iguais(bloco.hash_anterior.as_slice(), blocos[i - 1].hash_bloco.as_slice())
            };
            if bloco.numero != i as u64 || !ligado {
                return Err(Erro::Persistencia);
            }
            assert(ligada(ordenados.take(i + 1))) by {
                let depois = ordenados.take(i + 1);
                let antes = ordenados.take(i as int);
                assert forall|k: int| 0 <= k < depois.len() implies {
                    &&& (#[trigger] depois[k]).numero == k
                    &&& k == 0 ==> depois[k].hash_anterior == hash_zero()
                    &&& k > 0 ==> depois[k].hash_anterior == depois[k - 1].hash_bloco
                } by {
                    if k < i {
                        assert(depois[k] == antes[k]);
                        if k > 0 {
                            assert(depois[k - 1] == antes[k - 1]);
                        }
                    }
                }
            }
            i += 1;
        }
        assert(ordenados.take(n as int) =~= ordenados);
        proof {
            lema_dificuldade_fechada(n as nat);
        }
        let subidas: usize = if n >= 20 {
            n / 10 - 2
        } else {
            0
        };
        let dificuldade_atual: u32 = if subidas >= u32::MAX as usize {
            u32::MAX
        } else {
            1 + subidas as u32
        };
        let altura_atual: u64 = if n == 0 {
            0
        } else {
            (n - 1) as u64
        };
        Ok(CadeiaBlockchain { blocos, altura_atual, dificuldade_atual })
    }

    /// The counters of the chain, in this order: `total_blocos`,
    /// `altura_atual`, `dificuldade_atual`, `total_transacoes`.
    pub fn obter_estatisticas(&self) -> (r: Vec<(String, u64)>)
        ensures
            r@.len() == 4,
            contador(r@[0], "total_blocos"@, self.blocos().len() as int),
            contador(r@[1], "altura_atual"@, self.altura() as int),
            contador(r@[2], "dificuldade_atual"@, self.dificuldade() as int),
            contador(r@[3], "total_transacoes"@, total_transacoes(self.blocos()) as int),
    {
        let mut soma: u64 = 0;
        let mut i: usize = 0;
        assert(self.blocos().take(0) =~= Seq::<BlocoView>::empty());
        while i < self.blocos.len()
            invariant
                i <= self.blocos@.len(),
                soma == if total_transacoes(self.blocos().take(i as int)) > u64::MAX {
                    u64::MAX
                } else {
                    total_transacoes(self.blocos().take(i as int)) as u64
                },
            decreases self.blocos@.len() - i,
        {
            let ghost depois = self.blocos().take(i + 1);
            assert(depois.drop_last() =~= self.blocos().take(i as int));
            assert(depois.last() == self.blocos@[i as int]@);
            soma = soma.saturating_add(self.blocos[i].transacoes.len() as u64);
            i += 1;
        }
        assert(self.blocos().take(self.blocos@.len() as int) =~= self.blocos());
        let mut r: Vec<(String, u64)> = Vec::new();
        r.push(("total_blocos".to_owned(), self.blocos.len() as u64));
        r.push(("altura_atual".to_owned(), self.altura_atual));
        r.push(("dificuldade_atual".to_owned(), self.dificuldade_atual as u64));
        r.push(("total_transacoes".to_owned(), soma));
        r
    }

    /// The difficulty policy, applied after each append.
    fn ajustar_dificuldade(&mut self)
        requires
            old(self).blocos().len() >= 1,
            old(self).dificuldade() == dificuldade_corrente((old(self).blocos().len() - 1) as nat),
        ensures
            final(self).blocos() == old(self).blocos(),
            final(self).altura() == old(self).altura(),
            final(self).dificuldade() == dificuldade_corrente(old(self).blocos().len()),
            final(self).dificuldade() == ajustada(
                old(self).dificuldade(),
                old(self).blocos().len(),
            ),
            final(self).dificuldade() >= old(self).dificuldade(),
    {
        proof {
            lema_passo_da_politica(self.blocos().len());
        }
        let tamanho = self.blocos.len();
        if tamanho % PERIODO_AJUSTE == 0 && tamanho > TAMANHO_SEM_AJUSTE {
            self.dificuldade_atual = self.dificuldade_atual.saturating_add(1);
        }
    }
}

} // verus!
