//! Block validation with a bounded cache of results and a bounded set of
//! seen transactions.

use vstd::prelude::*;
use crate::blockchain::bloco::{
    cumpre_dificuldade, estrutura_valida, raiz_transacoes, Bloco, BlocoView,
};
use crate::blockchain::cadeia::CadeiaBlockchain;
use crate::consenso::processamento::processador::{
    transacao_estruturada, validar_estrutura_transacao,
};
use crate::consenso::tipos::{
    bytes_de_texto, bytes_do_texto, bytes_iguais, copiar_bytes, Transacao, TransacaoView,
};
use crate::mapa::{lugar_de, ocorre, MapaOrdenado};
use crate::tempo::Instante;

verus! {

/// How far in the future a block may be stamped, in seconds: ten minutes.
pub const TOLERANCIA_BLOCO: i64 = 600;

/// The default capacity of the cache.
pub const TAMANHO_CACHE_PADRAO: usize = 1000;

/// The size above which the set of seen transactions is trimmed.
pub const LIMITE_CONHECIDAS: usize = 10_000;

/// How many of the oldest seen transactions a trim drops.
pub const DESCARTE_CONHECIDAS: usize = 1_000;

/// Why a block is invalid. A number is the place of a transaction in the
/// block.
#[derive(Clone, Copy, Debug, PartialEq, Eq, Structural)]
pub enum FalhaValidacao {
    EstruturaInvalida,
    MerkleRootInvalido,
    TimestampNoFuturo,
    GenesisSemHashZero,
    HashAnteriorDivergente,
    NumeroForaDeSequencia,
    BlocoAnteriorAusente,
    TransacaoDuplicadaNoBloco(usize),
    TransacaoJaProcessada(usize),
    TransacaoInvalida(usize),
    DificuldadeNaoAtendida,
}

/// What is odd about a block without making it invalid.
#[derive(Clone, Copy, Debug, PartialEq, Eq, Structural)]
pub enum AvisoValidacao {
    AssinaturaMineradorVazia,
    TimestampNaoCrescente,
}

pub struct ResultadoValidacao {
    pub valido: bool,
    pub erros: Vec<FalhaValidacao>,
    pub avisos: Vec<AvisoValidacao>,
    pub tempo_validacao_ms: u64,
}

/// What a validation result holds, as mathematical values.
pub struct ResultadoView {
    pub valido: bool,
    pub erros: Seq<FalhaValidacao>,
    pub avisos: Seq<AvisoValidacao>,
    pub tempo_validacao_ms: u64,
}

impl View for ResultadoValidacao {
    type V = ResultadoView;

    open spec fn view(&self) -> ResultadoView {
        ResultadoView {
            valido: self.valido,
            erros: self.erros@,
            avisos: self.avisos@,
            tempo_validacao_ms: self.tempo_validacao_ms,
        }
    }
}

impl ResultadoValidacao {
    /// A copy with the same contents.
    pub fn duplicar(&self) -> (r: ResultadoValidacao)
        ensures
            r@ == self@,
    {
        let erros = self.erros.clone();
        let avisos = self.avisos.clone();
        assert(erros@ =~= self.erros@);
        assert(avisos@ =~= self.avisos@);
        ResultadoValidacao {
            valido: self.valido,
            erros,
            avisos,
            tempo_validacao_ms: self.tempo_validacao_ms,
        }
    }
}

#[derive(Clone, Copy, Debug, PartialEq, Eq, Structural)]
pub struct EstatisticasValidacao {
    pub total_validacoes: u64,
    pub validacoes_bem_sucedidas: u64,
    pub validacoes_falharam: u64,
    pub tempo_medio_validacao_ms: u64,
    pub ultimo_bloco_validado: Option<u64>,
}

#[derive(Clone, Copy, Debug, PartialEq, Eq, Structural)]
pub struct ConfiguracaoValidador {
    pub validar_assinaturas: bool,
    pub validar_merkle_trees: bool,
    pub validar_dificuldade: bool,
    pub validar_transacoes_duplicadas: bool,
    pub timeout_validacao_segundos: u64,
    pub tamanho_cache: usize,
}

/// Every check switched on, a timeout of 30 seconds, a cache of 1000.
pub open spec fn configuracao_padrao() -> ConfiguracaoValidador {
    ConfiguracaoValidador {
        validar_assinaturas: true,
        validar_merkle_trees: true,
        validar_dificuldade: true,
        validar_transacoes_duplicadas: true,
        timeout_validacao_segundos: 30,
        tamanho_cache: TAMANHO_CACHE_PADRAO,
    }
}

impl Default for ConfiguracaoValidador {
    fn default() -> (r: ConfiguracaoValidador)
        ensures
            r == configuracao_padrao(),
    {
        ConfiguracaoValidador {
            validar_assinaturas: true,
            validar_merkle_trees: true,
            validar_dificuldade: true,
            validar_transacoes_duplicadas: true,
            timeout_validacao_segundos: 30,
            tamanho_cache: TAMANHO_CACHE_PADRAO,
        }
    }
}

/// Statistics before the first validation.
pub open spec fn estatisticas_iniciais() -> EstatisticasValidacao {
    EstatisticasValidacao {
        total_validacoes: 0,
        validacoes_bem_sucedidas: 0,
        validacoes_falharam: 0,
        tempo_medio_validacao_ms: 0,
        ultimo_bloco_validado: None,
    }
}

/// One failure where `falhou`, none otherwise.
pub open spec fn falha_se(falhou: bool, falha: FalhaValidacao) -> Seq<FalhaValidacao> {
    if falhou {
        seq![falha]
    } else {
        Seq::empty()
    }
}

/// One warning where `ocorre`, none otherwise.
pub open spec fn aviso_se(ocorre: bool, aviso: AvisoValidacao) -> Seq<AvisoValidacao> {
    if ocorre {
        seq![aviso]
    } else {
        Seq::empty()
    }
}

pub open spec fn todos_zero(b: Seq<u8>) -> bool {
    forall|i: int| 0 <= i < b.len() ==> b[i] == 0u8
}

/// The failures of the block by itself: structure, Merkle root where that
/// check is on, and a timestamp later than ten minutes from now.
pub open spec fn erros_estrutura(b: BlocoView, cfg: ConfiguracaoValidador, agora: Instante) -> Seq<
    FalhaValidacao,
> {
    falha_se(!estrutura_valida(b), FalhaValidacao::EstruturaInvalida) + falha_se(
        cfg.validar_merkle_trees && raiz_transacoes(b.transacoes) != Some(b.merkle_root),
        FalhaValidacao::MerkleRootInvalido,
    ) + falha_se(
        agora.deslocado(TOLERANCIA_BLOCO as int).antes_de(b.timestamp),
        FalhaValidacao::TimestampNoFuturo,
    )
}

pub open spec fn avisos_estrutura(b: BlocoView, cfg: ConfiguracaoValidador) -> Seq<AvisoValidacao> {
    aviso_se(
        cfg.validar_assinaturas && b.assinatura_minerador.len() == 0,
        AvisoValidacao::AssinaturaMineradorVazia,
    )
}

/// The failures of the block against the chain: a genesis must point at
/// zeros; any other block must find its predecessor at its number minus
/// one, point at its hash, and carry the next number.
pub open spec fn erros_ligacao(b: BlocoView, blocos: Seq<BlocoView>) -> Seq<FalhaValidacao> {
    if b.numero == 0 {
        falha_se(!todos_zero(b.hash_anterior), FalhaValidacao::GenesisSemHashZero)
    } else if b.numero - 1 < blocos.len() {
        let anterior = blocos[b.numero - 1];
        falha_se(
            b.hash_anterior != anterior.hash_bloco,
            FalhaValidacao::HashAnteriorDivergente,
        ) + falha_se(b.numero != anterior.numero + 1, FalhaValidacao::NumeroForaDeSequencia)
    } else {
        seq![FalhaValidacao::BlocoAnteriorAusente]
    }
}

pub open spec fn avisos_ligacao(b: BlocoView, blocos: Seq<BlocoView>) -> Seq<AvisoValidacao> {
    aviso_se(
        b.numero > 0 && b.numero - 1 < blocos.len() && !blocos[b.numero - 1].timestamp.antes_de(
            b.timestamp,
        ),
        AvisoValidacao::TimestampNaoCrescente,
    )
}

/// Whether the id of transaction `i` stands earlier in the block.
pub open spec fn id_repetido(txs: Seq<TransacaoView>, i: int) -> bool {
    exists|j: int| 0 <= j < i && (#[trigger] txs[j]).id == txs[i].id
}

/// The failures of transaction `i`: an id that stands earlier in the block,
/// an id that was seen in an earlier block where that check is on, and a
/// broken structure.
pub open spec fn erros_da_transacao(
    txs: Seq<TransacaoView>,
    i: int,
    conhecidas: Seq<Seq<u8>>,
    cfg: ConfiguracaoValidador,
    agora: Instante,
) -> Seq<FalhaValidacao> {
    falha_se(id_repetido(txs, i), FalhaValidacao::TransacaoDuplicadaNoBloco(i as usize)) + falha_se(
        cfg.validar_transacoes_duplicadas && ocorre(conhecidas, bytes_de_texto(txs[i].id)),
        FalhaValidacao::TransacaoJaProcessada(i as usize),
    ) + falha_se(!transacao_estruturada(txs[i], agora), FalhaValidacao::TransacaoInvalida(i as usize))
}

/// The failures of the first `n` transactions, in order.
pub open spec fn erros_transacoes(
    txs: Seq<TransacaoView>,
    n: int,
    conhecidas: Seq<Seq<u8>>,
    cfg: ConfiguracaoValidador,
    agora: Instante,
) -> Seq<FalhaValidacao>
    decreases n,
{
    if n <= 0 {
        Seq::empty()
    } else {
        erros_transacoes(txs, n - 1, conhecidas, cfg, agora) + erros_da_transacao(
            txs,
            n - 1,
            conhecidas,
            cfg,
            agora,
        )
    }
}

pub open spec fn erros_dificuldade(b: BlocoView, cfg: ConfiguracaoValidador) -> Seq<FalhaValidacao> {
    falha_se(
        cfg.validar_dificuldade && !cumpre_dificuldade(b.hash_bloco, b.dificuldade),
        FalhaValidacao::DificuldadeNaoAtendida,
    )
}

/// The failures found before the difficulty check.
pub open spec fn erros_antes_da_dificuldade(
    b: BlocoView,
    blocos: Seq<BlocoView>,
    conhecidas: Seq<Seq<u8>>,
    cfg: ConfiguracaoValidador,
    agora: Instante,
) -> Seq<FalhaValidacao> {
    erros_estrutura(b, cfg, agora) + erros_ligacao(b, blocos) + erros_transacoes(
        b.transacoes,
        b.transacoes.len() as int,
        conhecidas,
        cfg,
        agora,
    )
}

/// The verdict on a block: valid exactly where no failure was found.
pub open spec fn avaliar(
    b: BlocoView,
    blocos: Seq<BlocoView>,
    conhecidas: Seq<Seq<u8>>,
    cfg: ConfiguracaoValidador,
    agora: Instante,
    duracao_ms: u64,
) -> ResultadoView {
    let erros = erros_antes_da_dificuldade(b, blocos, conhecidas, cfg, agora) + erros_dificuldade(
        b,
        cfg,
    );
    ResultadoView {
        valido: erros.len() == 0,
        erros,
        avisos: avisos_estrutura(b, cfg) + avisos_ligacao(b, blocos),
        tempo_validacao_ms: duracao_ms,
    }
}

/// The seen set after the ids of the first `n` transactions were added:
/// an id that is in the set keeps its place, a new one goes behind.
pub open spec fn com_ids(conhecidas: Seq<Seq<u8>>, txs: Seq<TransacaoView>, n: int) -> Seq<Seq<u8>>
    decreases n,
{
    if n <= 0 {
        conhecidas
    } else {
        let antes = com_ids(conhecidas, txs, n - 1);
        let chave = bytes_de_texto(txs[n - 1].id);
        if ocorre(antes, chave) {
            antes
        } else {
            antes.push(chave)
        }
    }
}

/// The seen set, trimmed: above 10 000 ids the 1000 oldest are dropped.
pub open spec fn aparada(conhecidas: Seq<Seq<u8>>) -> Seq<Seq<u8>> {
    if conhecidas.len() > LIMITE_CONHECIDAS {
        conhecidas.skip(DESCARTE_CONHECIDAS as int)
    } else {
        conhecidas
    }
}

/// The seen set after a block: its ids are added where nothing failed
/// before the difficulty check, and then the set is trimmed.
pub open spec fn conhecidas_apos(
    b: BlocoView,
    blocos: Seq<BlocoView>,
    conhecidas: Seq<Seq<u8>>,
    cfg: ConfiguracaoValidador,
    agora: Instante,
) -> Seq<Seq<u8>> {
    if erros_antes_da_dificuldade(b, blocos, conhecidas, cfg, agora).len() == 0 {
        aparada(com_ids(conhecidas, b.transacoes, b.transacoes.len() as int))
    } else {
        conhecidas
    }
}

/// How many of the oldest results leave a full cache: a tenth of its
/// capacity, one at least.
pub open spec fn despejo(tamanho_cache: usize) -> int {
    if tamanho_cache / 10 == 0 {
        1
    } else {
        tamanho_cache as int / 10
    }
}

/// What is left of a list after the first `n` were dropped, or all.
pub open spec fn sem_os_primeiros<T>(s: Seq<T>, n: int) -> Seq<T> {
    if n <= s.len() {
        s.skip(n)
    } else {
        s.skip(s.len() as int)
    }
}

/// `v` plus one, held at the largest `u64`.
pub open spec fn mais_um(v: u64) -> u64 {
    if v == u64::MAX {
        v
    } else {
        (v + 1) as u64
    }
}

/// The statistics after a validation of block `numero` that took
/// `duracao_ms`: the counters go up, and the mean duration is the mean of
/// all validations so far, rounded down.
pub open spec fn estatisticas_apos(
    e: EstatisticasValidacao,
    valido: bool,
    duracao_ms: u64,
    numero: u64,
) -> EstatisticasValidacao {
    let total = mais_um(e.total_validacoes);
    EstatisticasValidacao {
        total_validacoes: total,
        validacoes_bem_sucedidas: if valido {
            mais_um(e.validacoes_bem_sucedidas)
        } else {
            e.validacoes_bem_sucedidas
        },
        validacoes_falharam: if valido {
            e.validacoes_falharam
        } else {
            mais_um(e.validacoes_falharam)
        },
        tempo_medio_validacao_ms: ((e.tempo_medio_validacao_ms * (total - 1) + duracao_ms)
            / total as int) as u64,
        ultimo_bloco_validado: Some(numero),
    }
}

/// The views of a list of results, in order.
pub open spec fn visoes_resultados(s: Seq<ResultadoValidacao>) -> Seq<ResultadoView> {
    Seq::new(s.len(), |i: int| s[i]@)
}

/// What a validator remembers between blocks.
pub struct EstadoValidador {
    /// The block hashes that have a cached result, oldest first.
    pub cache_chaves: Seq<Seq<u8>>,
    /// The cached results, each at the place of its block hash.
    pub cache_resultados: Seq<ResultadoView>,
    /// The ids of the seen transactions as UTF-8 bytes, oldest first.
    pub conhecidas: Seq<Seq<u8>>,
    pub estatisticas: EstatisticasValidacao,
}

/// What a validator remembers before its first block: an empty cache, no
/// seen transactions, statistics at zero.
pub open spec fn estado_inicial() -> EstadoValidador {
    EstadoValidador {
        cache_chaves: Seq::empty(),
        cache_resultados: Seq::empty(),
        conhecidas: Seq::empty(),
        estatisticas: estatisticas_iniciais(),
    }
}

/// Whether the cache holds a result for block hash `hash`.
pub open spec fn em_cache(e: EstadoValidador, hash: Seq<u8>) -> bool {
    ocorre(e.cache_chaves, hash)
}

/// The cached result for block hash `hash`.
pub open spec fn resultado_em_cache(e: EstadoValidador, hash: Seq<u8>) -> ResultadoView {
    e.cache_resultados[lugar_de(e.cache_chaves, hash)]
}

/// How many of the oldest results make room for a new one: none while the
/// cache is below its capacity.
pub open spec fn a_despejar(e: EstadoValidador, cfg: ConfiguracaoValidador) -> int {
    if e.cache_chaves.len() >= cfg.tamanho_cache {
        despejo(cfg.tamanho_cache)
    } else {
        0
    }
}

/// The verdict on block `b`: the cached one where there is one, else a
/// fresh one.
pub open spec fn veredito(
    e: EstadoValidador,
    cfg: ConfiguracaoValidador,
    b: BlocoView,
    blocos: Seq<BlocoView>,
    agora: Instante,
    duracao_ms: u64,
) -> bool {
    if em_cache(e, b.hash_bloco) {
        resultado_em_cache(e, b.hash_bloco).valido
    } else {
        avaliar(b, blocos, e.conhecidas, cfg, agora, duracao_ms).valido
    }
}

/// What the validator remembers after block `b`: nothing new where the
/// verdict was cached; else the fresh result goes into the cache, behind
/// what is left after the oldest were dropped from a full cache, the seen
/// set takes the ids of the block, and the statistics count the validation.
pub open spec fn apos_bloco(
    e: EstadoValidador,
    cfg: ConfiguracaoValidador,
    b: BlocoView,
    blocos: Seq<BlocoView>,
    agora: Instante,
    duracao_ms: u64,
) -> EstadoValidador {
    if em_cache(e, b.hash_bloco) {
        e
    } else {
        let resultado = avaliar(b, blocos, e.conhecidas, cfg, agora, duracao_ms);
        EstadoValidador {
            cache_chaves: sem_os_primeiros(e.cache_chaves, a_despejar(e, cfg)).push(b.hash_bloco),
            cache_resultados: sem_os_primeiros(e.cache_resultados, a_despejar(e, cfg)).push(
                resultado,
            ),
            conhecidas: conhecidas_apos(b, blocos, e.conhecidas, cfg, agora),
            estatisticas: estatisticas_apos(e.estatisticas, resultado.valido, duracao_ms, b.numero),
        }
    }
}

/// What the validator remembers after the first `n` blocks of a chain were
/// validated in order.
pub open spec fn apos_cadeia(
    e: EstadoValidador,
    cfg: ConfiguracaoValidador,
    blocos: Seq<BlocoView>,
    n: int,
    agora: Instante,
    duracao_ms: u64,
) -> EstadoValidador
    decreases n,
{
    if n <= 0 {
        e
    } else {
        apos_bloco(
            apos_cadeia(e, cfg, blocos, n - 1, agora, duracao_ms),
            cfg,
            blocos[n - 1],
            blocos,
            agora,
            duracao_ms,
        )
    }
}

/// Whether each of the first `n` blocks of a chain gets a valid verdict
/// when they are validated in order.
pub open spec fn todos_validos(
    e: EstadoValidador,
    cfg: ConfiguracaoValidador,
    blocos: Seq<BlocoView>,
    n: int,
    agora: Instante,
    duracao_ms: u64,
) -> bool
    decreases n,
{
    if n <= 0 {
        true
    } else {
        todos_validos(e, cfg, blocos, n - 1, agora, duracao_ms) && veredito(
            apos_cadeia(e, cfg, blocos, n - 1, agora, duracao_ms),
            cfg,
            blocos[n - 1],
            blocos,
            agora,
            duracao_ms,
        )
    }
}

/// `v` plus one, held at the largest `u64`.
pub fn somar_um(v: u64) -> (r: u64)
    ensures
        r == mais_um(v),
{
    if v == u64::MAX {
        v
    } else {
        v + 1
    }
}

/// The mean of `total` durations of which `total - 1` had the mean
/// `medio` and the last was `duracao`, rounded down.
pub fn nova_media(medio: u64, total: u64, duracao: u64) -> (r: u64)
    requires
        total >= 1,
    ensures
        r == (medio * (total - 1) + duracao) / total as int,
{
    assert(medio * (total - 1) + duracao <= 0xFFFF_FFFF_FFFF_FFFF * total) by (nonlinear_arith)
        requires
            0 <= medio <= 0xFFFF_FFFF_FFFF_FFFF,
            0 <= duracao <= 0xFFFF_FFFF_FFFF_FFFF,
            1 <= total,
    ;
    assert(0xFFFF_FFFF_FFFF_FFFF * total <= 0xFFFF_FFFF_FFFF_FFFF * 0xFFFF_FFFF_FFFF_FFFF)
        by (nonlinear_arith)
        requires
            1 <= total <= 0xFFFF_FFFF_FFFF_FFFF,
    ;
    assert(0 <= medio * (total - 1)) by (nonlinear_arith)
        requires
            0 <= medio,
            1 <= total,
    ;
    let soma: u128 = medio as u128 * (total - 1) as u128 + duracao as u128;
    let q = soma / total as u128;
    assert(q <= 0xFFFF_FFFF_FFFF_FFFF) by (nonlinear_arith)
        requires
            q == soma / total as u128,
            soma <= 0xFFFF_FFFF_FFFF_FFFF * total,
            1 <= total,
    ;
    q as u64
}

pub struct ValidadorCadeia {
    estatisticas: EstatisticasValidacao,
    cache_validacao: MapaOrdenado<ResultadoValidacao>,
    transacoes_conhecidas: MapaOrdenado<()>,
    configuracao: ConfiguracaoValidador,
}

impl ValidadorCadeia {
    /// What the validator remembers.
    pub closed spec fn estado(&self) -> EstadoValidador {
        EstadoValidador {
            cache_chaves: self.cache_validacao.chaves(),
            cache_resultados: visoes_resultados(self.cache_validacao.valores()),
            conhecidas: self.transacoes_conhecidas.chaves(),
            estatisticas: self.estatisticas,
        }
    }

    pub closed spec fn configuracao(&self) -> ConfiguracaoValidador {
        self.configuracao
    }

    pub closed spec fn bem_formado(&self) -> bool {
        self.cache_validacao.bem_formado() && self.transacoes_conhecidas.bem_formado()
    }

    /// A validator with the default configuration and nothing remembered.
    pub fn new() -> (r: ValidadorCadeia)
        ensures
            r.bem_formado(),
            r.configuracao() == configuracao_padrao(),
            r.estado() == estado_inicial(),
    {
        ValidadorCadeia::new_com_configuracao(ConfiguracaoValidador::default())
    }

    /// A validator with configuration `config` and nothing remembered.
    pub fn new_com_configuracao(config: ConfiguracaoValidador) -> (r: ValidadorCadeia)
        ensures
            r.bem_formado(),
            r.configuracao() == config,
            r.estado() == estado_inicial(),
    {
        let r = ValidadorCadeia {
            estatisticas: EstatisticasValidacao {
                total_validacoes: 0,
                validacoes_bem_sucedidas: 0,
                validacoes_falharam: 0,
                tempo_medio_validacao_ms: 0,
                ultimo_bloco_validado: None,
            },
            cache_validacao: MapaOrdenado::new(),
            transacoes_conhecidas: MapaOrdenado::new(),
            configuracao: config,
        };
        assert(r.estado().cache_chaves =~= Seq::<Seq<u8>>::empty());
        assert(r.estado().cache_resultados =~= Seq::<ResultadoView>::empty());
        assert(r.estado().conhecidas =~= Seq::<Seq<u8>>::empty());
        r
    }

    /// Validates `bloco` against `cadeia` at `agora`. A verdict that is in
    /// the cache is returned as it is; else the block is checked, the
    /// result is cached, and the statistics count a validation that took
    /// `duracao_ms`.
    pub fn validar_bloco(
        &mut self,
        bloco: &Bloco,
        cadeia: &CadeiaBlockchain,
        agora: Instante,
        duracao_ms: u64,
    ) -> (r: bool)
        requires
            old(self).bem_formado(),
        ensures
            final(self).bem_formado(),
            final(self).configuracao() == old(self).configuracao(),
            r == veredito(
                old(self).estado(),
                old(self).configuracao(),
                bloco@,
                cadeia.blocos(),
                agora,
                duracao_ms,
            ),
            final(self).estado() == apos_bloco(
                old(self).estado(),
                old(self).configuracao(),
                bloco@,
                cadeia.blocos(),
                agora,
                duracao_ms,
            ),
    {
        match self.obter_do_cache(bloco.hash_bloco.as_slice()) {
            Some(valido) => {
                return valido;
            },
            None => {},
        }
        let mut erros: Vec<FalhaValidacao> = Vec::new();
        let mut avisos: Vec<AvisoValidacao> = Vec::new();
        self.validar_estrutura_bloco(bloco, agora, &mut erros, &mut avisos);
        self.validar_ligacao_cadeia(bloco, cadeia, &mut erros, &mut avisos);
        self.validar_transacoes_bloco(bloco, agora, &mut erros);
        let ghost antes_da_dificuldade = erros@;
        assert(antes_da_dificuldade =~= erros_antes_da_dificuldade(
            bloco@,
            cadeia.blocos(),
            self.estado().conhecidas,
            self.configuracao(),
            agora,
        ));
        if erros.len() == 0 {
            self.registrar_transacoes(bloco);
        }
        self.validar_dificuldade_bloco(bloco, &mut erros);
        let resultado = ResultadoValidacao {
            valido: erros.len() == 0,
            erros,
            avisos,
            tempo_validacao_ms: duracao_ms,
        };
        assert(resultado@.erros =~= avaliar(
            bloco@,
            cadeia.blocos(),
            old(self).estado().conhecidas,
            old(self).configuracao(),
            agora,
            duracao_ms,
        ).erros);
        assert(resultado@.avisos =~= avaliar(
            bloco@,
            cadeia.blocos(),
            old(self).estado().conhecidas,
            old(self).configuracao(),
            agora,
            duracao_ms,
        ).avisos);
        let valido = resultado.valido;
        self.atualizar_estatisticas(valido, duracao_ms, bloco.numero);
        self.armazenar_no_cache(copiar_bytes(&bloco.hash_bloco), resultado);
        valido
    }

    /// The failures and warnings of the block by itself.
    fn validar_estrutura_bloco(
        &self,
        bloco: &Bloco,
        agora: Instante,
        erros: &mut Vec<FalhaValidacao>,
        avisos: &mut Vec<AvisoValidacao>,
    )
        ensures
            final(erros)@ == old(erros)@ + erros_estrutura(bloco@, self.configuracao(), agora),
            final(avisos)@ == old(avisos)@ + avisos_estrutura(bloco@, self.configuracao()),
    {
        if !bloco.validar_estrutura() {
            erros.push(FalhaValidacao::EstruturaInvalida);
        }
        if self.configuracao.validar_merkle_trees {
            let confere = match Bloco::calcular_merkle_root(bloco.transacoes.as_slice()) {
                Ok(m) => bytes_iguais(m.as_slice(), bloco.merkle_root.as_slice()),
                Err(_) => false,
            };
            if !confere {
                erros.push(FalhaValidacao::MerkleRootInvalido);
            }
        }
        let limite = agora.mais_segundos(TOLERANCIA_BLOCO);
        if limite.anterior_a(&bloco.timestamp) {
            erros.push(FalhaValidacao::TimestampNoFuturo);
        }
        if self.configuracao.validar_assinaturas && bloco.assinatura_minerador.len() == 0 {
            avisos.push(AvisoValidacao::AssinaturaMineradorVazia);
        }
        assert(erros@ =~= old(erros)@ + erros_estrutura(bloco@, self.configuracao(), agora));
        assert(avisos@ =~= old(avisos)@ + avisos_estrutura(bloco@, self.configuracao()));
    }

    /// The failures and warnings of the block against the chain.
    fn validar_ligacao_cadeia(
        &self,
        bloco: &Bloco,
        cadeia: &CadeiaBlockchain,
        erros: &mut Vec<FalhaValidacao>,
        avisos: &mut Vec<AvisoValidacao>,
    )
        ensures
            final(erros)@ == old(erros)@ + erros_ligacao(bloco@, cadeia.blocos()),
            final(avisos)@ == old(avisos)@ + avisos_ligacao(bloco@, cadeia.blocos()),
    {
        if bloco.numero == 0 {
            let mut zeros = true;
            let mut i: usize = 0;
            while i < bloco.hash_anterior.len()
                invariant
                    i <= bloco.hash_anterior@.len(),
                    zeros == forall|k: int| 0 <= k < i ==> bloco.hash_anterior@[k] == 0u8,
                decreases bloco.hash_anterior@.len() - i,
            {
                if bloco.hash_anterior[i] != 0 {
                    zeros = false;
                }
                i += 1;
            }
            if !zeros {
                erros.push(FalhaValidacao::GenesisSemHashZero);
            }
        } else {
            match cadeia.bloco_em(bloco.numero - 1) {
                Some(anterior) => {
                    if !bytes_iguais(
                        bloco.hash_anterior.as_slice(),
                        anterior.hash_bloco.as_slice(),
                    ) {
                        erros.push(FalhaValidacao::HashAnteriorDivergente);
                    }
                    if anterior.numero == u64::MAX || bloco.numero != anterior.numero + 1 {
                        erros.push(FalhaValidacao::NumeroForaDeSequencia);
                    }
                    if !anterior.timestamp.anterior_a(&bloco.timestamp) {
                        avisos.push(AvisoValidacao::TimestampNaoCrescente);
                    }
                },
                None => {
                    erros.push(FalhaValidacao::BlocoAnteriorAusente);
                },
            }
        }
        assert(erros@ =~= old(erros)@ + erros_ligacao(bloco@, cadeia.blocos()));
        assert(avisos@ =~= old(avisos)@ + avisos_ligacao(bloco@, cadeia.blocos()));
    }

    /// The failures of the transactions of the block, in order.
    fn validar_transacoes_bloco(
        &self,
        bloco: &Bloco,
        agora: Instante,
        erros: &mut Vec<FalhaValidacao>,
    )
        requires
            self.bem_formado(),
        ensures
            final(erros)@ == old(erros)@ + erros_transacoes(
                bloco@.transacoes,
                bloco@.transacoes.len() as int,
                self.estado().conhecidas,
                self.configuracao(),
                agora,
            ),
    {
        let ghost txs = bloco@.transacoes;
        let ghost conhecidas = self.estado().conhecidas;
        let mut i: usize = 0;
        assert(erros@ =~= old(erros)@ + erros_transacoes(
            txs,
            0,
            conhecidas,
            self.configuracao(),
            agora,
        ));
        while i < bloco.transacoes.len()
            invariant
                self.bem_formado(),
                i <= bloco.transacoes@.len(),
                txs == bloco@.transacoes,
                conhecidas == self.estado().conhecidas,
                erros@ == old(erros)@ + erros_transacoes(
                    txs,
                    i as int,
                    conhecidas,
                    self.configuracao(),
                    agora,
                ),
            decreases bloco.transacoes@.len() - i,
        {
            let ghost antes = erros@;
            let transacao = &bloco.transacoes[i];
            assert(txs[i as int] == transacao@);
            let mut repetido = false;
            let mut j: usize = 0;
            while j < i
                invariant
                    j <= i < bloco.transacoes@.len(),
                    txs == bloco@.transacoes,
                    repetido == exists|k: int| 0 <= k < j && (#[trigger] txs[k]).id == txs[i as int].id,
                decreases i - j,
            {
                assert(txs[j as int] == bloco.transacoes@[j as int]@);
                assert(txs[i as int] == bloco.transacoes@[i as int]@);
                if bloco.transacoes[j].id == bloco.transacoes[i].id {
                    repetido = true;
                }
                j += 1;
            }
            if repetido {
                erros.push(FalhaValidacao::TransacaoDuplicadaNoBloco(i));
            }
            if self.configuracao.validar_transacoes_duplicadas
                && self.transacoes_conhecidas.contem_chave(transacao.id.as_str().as_bytes()) {
                erros.push(FalhaValidacao::TransacaoJaProcessada(i));
            }
            if !self.validar_transacao_individual(transacao, agora) {
                erros.push(FalhaValidacao::TransacaoInvalida(i));
            }
            assert(erros@ =~= antes + erros_da_transacao(
                txs,
                i as int,
                conhecidas,
                self.configuracao(),
                agora,
            ));
            i += 1;
        }
    }

    /// Whether a transaction has an id, a payload and a signature, and is
    /// not stamped later than five minutes from now.
    pub fn validar_transacao_individual(&self, transacao: &Transacao, agora: Instante) -> (r: bool)
        ensures
            r == transacao_estruturada(transacao@, agora),
    {
        validar_estrutura_transacao(transacao, agora)
    }

    /// Adds the ids of the transactions of the block to the seen set, and
    /// trims the set.
    fn registrar_transacoes(&mut self, bloco: &Bloco)
        requires
            old(self).bem_formado(),
        ensures
            final(self).bem_formado(),
            final(self).configuracao() == old(self).configuracao(),
            final(self).estado().conhecidas == aparada(
                com_ids(
                    old(self).estado().conhecidas,
                    bloco@.transacoes,
                    bloco@.transacoes.len() as int,
                ),
            ),
            final(self).estado().cache_chaves == old(self).estado().cache_chaves,
            final(self).estado().cache_resultados == old(self).estado().cache_resultados,
            final(self).estado().estatisticas == old(self).estado().estatisticas,
    {
        let ghost txs = bloco@.transacoes;
        let ghost inicio = self.estado().conhecidas;
        let mut i: usize = 0;
        while i < bloco.transacoes.len()
            invariant
                self.bem_formado(),
                i <= bloco.transacoes@.len(),
                txs == bloco@.transacoes,
                self.configuracao() == old(self).configuracao(),
                self.estado().conhecidas == com_ids(inicio, txs, i as int),
                self.estado().cache_chaves == old(self).estado().cache_chaves,
                self.estado().cache_resultados == old(self).estado().cache_resultados,
                self.estado().estatisticas == old(self).estado().estatisticas,
            decreases bloco.transacoes@.len() - i,
        {
            assert(txs[i as int] == bloco.transacoes@[i as int]@);
            let chave = bytes_do_texto(bloco.transacoes[i].id.as_str());
            self.transacoes_conhecidas.inserir(chave, ());
            i += 1;
        }
        if self.transacoes_conhecidas.len() > LIMITE_CONHECIDAS {
            self.transacoes_conhecidas.remover_mais_antigos(DESCARTE_CONHECIDAS);
        }
    }

    /// The difficulty failure of the block, where that check is on.
    fn validar_dificuldade_bloco(&self, bloco: &Bloco, erros: &mut Vec<FalhaValidacao>)
        ensures
            final(erros)@ == old(erros)@ + erros_dificuldade(bloco@, self.configuracao()),
    {
        if self.configuracao.validar_dificuldade && !bloco.validar_dificuldade() {
            erros.push(FalhaValidacao::DificuldadeNaoAtendida);
        }
        assert(erros@ =~= old(erros)@ + erros_dificuldade(bloco@, self.configuracao()));
    }

    /// The cached verdict for block hash `hash_bloco`.
    fn obter_do_cache(&self, hash_bloco: &[u8]) -> (r: Option<bool>)
        requires
            self.bem_formado(),
        ensures
            r is Some <==> em_cache(self.estado(), hash_bloco@),
            r matches Some(v) ==> v == resultado_em_cache(self.estado(), hash_bloco@).valido,
    {
        match self.cache_validacao.obter(hash_bloco) {
            Some(resultado) => Some(resultado.valido),
            None => None,
        }
    }

    /// Puts a result into the cache; a full cache first drops its oldest
    /// tenth.
    fn armazenar_no_cache(&mut self, hash_bloco: Vec<u8>, resultado: ResultadoValidacao)
        requires
            old(self).bem_formado(),
            !em_cache(old(self).estado(), hash_bloco@),
        ensures
            final(self).bem_formado(),
            final(self).configuracao() == old(self).configuracao(),
            final(self).estado().conhecidas == old(self).estado().conhecidas,
            final(self).estado().estatisticas == old(self).estado().estatisticas,
            final(self).estado().cache_chaves == sem_os_primeiros(
                old(self).estado().cache_chaves,
                a_despejar(old(self).estado(), old(self).configuracao()),
            ).push(hash_bloco@),
            final(self).estado().cache_resultados == sem_os_primeiros(
                old(self).estado().cache_resultados,
                a_despejar(old(self).estado(), old(self).configuracao()),
            ).push(resultado@),
    {
        let ghost chaves_antes = self.cache_validacao.chaves();
        let ghost resultados_antes = visoes_resultados(self.cache_validacao.valores());
        if self.cache_validacao.len() >= self.configuracao.tamanho_cache {
            let decimo = self.configuracao.tamanho_cache / 10;
            let sair = if decimo == 0 {
                1
            } else {
                decimo
            };
            self.cache_validacao.remover_mais_antigos(sair);
        }
        let ghost n = a_despejar(old(self).estado(), old(self).configuracao());
        let ghost chaves_meio = self.cache_validacao.chaves();
        assert(chaves_meio =~= sem_os_primeiros(chaves_antes, n));
        assert(visoes_resultados(self.cache_validacao.valores()) =~= sem_os_primeiros(
            resultados_antes,
            n,
        ));
        assert(!self.cache_validacao.contem(hash_bloco@)) by {
            if self.cache_validacao.contem(hash_bloco@) {
                let j = lugar_de(chaves_meio, hash_bloco@);
                let corte = chaves_antes.len() - chaves_meio.len();
                assert(chaves_antes[j + corte] == hash_bloco@);
            }
        }
        let ghost visao = resultado@;
        let ghost meio = visoes_resultados(self.cache_validacao.valores());
        self.cache_validacao.inserir(hash_bloco, resultado);
        assert(visoes_resultados(self.cache_validacao.valores()) =~= meio.push(visao));
    }

    /// Counts a validation in the statistics.
    fn atualizar_estatisticas(&mut self, valido: bool, duracao_ms: u64, numero_bloco: u64)
        ensures
            final(self).bem_formado() == old(self).bem_formado(),
            final(self).configuracao() == old(self).configuracao(),
            final(self).estado().conhecidas == old(self).estado().conhecidas,
            final(self).estado().cache_chaves == old(self).estado().cache_chaves,
            final(self).estado().cache_resultados == old(self).estado().cache_resultados,
            final(self).estado().estatisticas == estatisticas_apos(
                old(self).estado().estatisticas,
                valido,
                duracao_ms,
                numero_bloco,
            ),
    {
        let total = somar_um(self.estatisticas.total_validacoes);
        let media = nova_media(self.estatisticas.tempo_medio_validacao_ms, total, duracao_ms);
        self.estatisticas = EstatisticasValidacao {
            total_validacoes: total,
            validacoes_bem_sucedidas: if valido {
                somar_um(self.estatisticas.validacoes_bem_sucedidas)
            } else {
                self.estatisticas.validacoes_bem_sucedidas
            },
            validacoes_falharam: if valido {
                self.estatisticas.validacoes_falharam
            } else {
                somar_um(self.estatisticas.validacoes_falharam)
            },
            tempo_medio_validacao_ms: media,
            ultimo_bloco_validado: Some(numero_bloco),
        };
    }

    pub fn obter_estatisticas(&self) -> (r: EstatisticasValidacao)
        ensures
            r == self.estado().estatisticas,
    {
        self.estatisticas
    }

    /// Empties the cache; the seen set and the statistics stay.
    pub fn limpar_cache(&mut self)
        requires
            old(self).bem_formado(),
        ensures
            final(self).bem_formado(),
            final(self).configuracao() == old(self).configuracao(),
            final(self).estado().cache_chaves.len() == 0,
            final(self).estado().cache_resultados.len() == 0,
            final(self).estado().conhecidas == old(self).estado().conhecidas,
            final(self).estado().estatisticas == old(self).estado().estatisticas,
    {
        self.cache_validacao.limpar();
    }

    /// Validates every block of `cadeia` in order, from block 0 to the tip.
    /// A chain without blocks is not valid.
    pub fn validar_cadeia_completa(
        &mut self,
        cadeia: &CadeiaBlockchain,
        agora: Instante,
        duracao_ms: u64,
    ) -> (r: bool)
        requires
            old(self).bem_formado(),
        ensures
            final(self).bem_formado(),
            final(self).configuracao() == old(self).configuracao(),
            final(self).estado() == apos_cadeia(
                old(self).estado(),
                old(self).configuracao(),
                cadeia.blocos(),
                cadeia.blocos().len() as int,
                agora,
                duracao_ms,
            ),
            r == (cadeia.blocos().len() > 0 && todos_validos(
                old(self).estado(),
                old(self).configuracao(),
                cadeia.blocos(),
                cadeia.blocos().len() as int,
                agora,
                duracao_ms,
            )),
    {
        let total = cadeia.obter_tamanho_cadeia();
        let mut todos = total > 0;
        let mut i: usize = 0;
        while i < total
            invariant
                self.bem_formado(),
                i <= total,
                total == cadeia.blocos().len(),
                self.configuracao() == old(self).configuracao(),
                self.estado() == apos_cadeia(
                    old(self).estado(),
                    old(self).configuracao(),
                    cadeia.blocos(),
                    i as int,
                    agora,
                    duracao_ms,
                ),
                todos == (total > 0 && todos_validos(
                    old(self).estado(),
                    old(self).configuracao(),
                    cadeia.blocos(),
                    i as int,
                    agora,
                    duracao_ms,
                )),
            decreases total - i,
        {
            match cadeia.bloco_em(i as u64) {
                Some(bloco) => {
                    if !self.validar_bloco(bloco, cadeia, agora, duracao_ms) {
                        todos = false;
                    }
                },
                None => {
                    todos = false;
                },
            }
            i += 1;
        }
        todos
    }
}

} // verus!
