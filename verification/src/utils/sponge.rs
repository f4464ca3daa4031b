use vstd::prelude::*;
use crate::math::field::{ f_add, f_sub, MODULUS };
use super::rescue::{ mat_vec, sbox, inv_sbox, dot_product, ALPHA, INV_ALPHA };

verus! {

/// Width of the Rescue state of the sponge used to hash program blocks and operations.
pub const STATE_WIDTH: usize = 4usize;

/// Number of steps in one cycle of round constants.
pub const CYCLE_LENGTH: usize = 16usize;

/// Whether all values of a state are canonical field elements.
pub open spec fn state_is_canonical(s: Seq<u128>) -> bool {
    forall|i: int| 0 <= i < s.len() ==> s[i] < MODULUS
}

/// Adds round constants of column `ark_idx` from rows `offset..offset + STATE_WIDTH`.
pub open spec fn spec_add_constants(s: Seq<u128>, ark_idx: int, offset: int) -> Seq<u128> {
    Seq::new(STATE_WIDTH as nat, |i: int| f_add(s[i] as int, ARK[offset + i][ark_idx] as int) as u128)
}

/// Subtracts round constants of column `ark_idx` from rows `offset..offset + STATE_WIDTH`.
pub open spec fn spec_sub_constants(s: Seq<u128>, ark: Seq<u128>, offset: int) -> Seq<u128> {
    Seq::new(STATE_WIDTH as nat, |i: int| f_sub(s[i] as int, ark[offset + i] as int) as u128)
}

/// Multiplication of the state by the MDS matrix.
pub open spec fn spec_mds(s: Seq<u128>) -> Seq<u128> {
    mat_vec(MDS@, s, STATE_WIDTH as nat)
}

/// Multiplication of the state by the inverse of the MDS matrix.
pub open spec fn spec_inv_mds(s: Seq<u128>) -> Seq<u128> {
    mat_vec(INV_MDS@, s, STATE_WIDTH as nat)
}

/// Adds to each state element the round constant for step `ark_idx` of the cycle,
/// taken from rows `offset..offset + STATE_WIDTH` of the constant table.
pub fn add_constants(state: &mut [u128; 4], ark_idx: usize, offset: usize)
    requires
        ark_idx < CYCLE_LENGTH,
        offset + STATE_WIDTH <= 2 * STATE_WIDTH,
    ensures
        final(state)@ == spec_add_constants(old(state)@, ark_idx as int, offset as int),
{
    let ghost s0 = state@;
    let mut i: usize = 0;
    while i < STATE_WIDTH
        invariant
            i <= STATE_WIDTH,
            ark_idx < CYCLE_LENGTH,
            offset + STATE_WIDTH <= 2 * STATE_WIDTH,
            state@.len() == STATE_WIDTH,
            forall|j: int| 0 <= j < i ==> state@[j] == spec_add_constants(s0, ark_idx as int, offset as int)[j],
            forall|j: int| i <= j < STATE_WIDTH ==> state@[j] == s0[j],
        decreases STATE_WIDTH - i,
    {
        let c = ARK[offset + i][ark_idx];
        state[i] = crate::math::field::add(state[i], c);
        i = i + 1;
    }
    assert(state@ =~= spec_add_constants(s0, ark_idx as int, offset as int));
}

/// Subtracts from each state element the given round constants from positions
/// `offset..offset + STATE_WIDTH` of `ark`.
pub fn sub_constants(state: &mut [u128; 4], ark: &[u128], offset: usize)
    requires
        offset + STATE_WIDTH <= ark@.len(),
    ensures
        final(state)@ == spec_sub_constants(old(state)@, ark@, offset as int),
{
    let ghost s0 = state@;
    let alen = ark.len();
    let mut i: usize = 0;
    while i < STATE_WIDTH
        invariant
            i <= STATE_WIDTH,
            offset + STATE_WIDTH <= ark@.len(),
            ark@.len() == alen,
            state@.len() == STATE_WIDTH,
            forall|j: int| 0 <= j < i ==> state@[j] == spec_sub_constants(s0, ark@, offset as int)[j],
            forall|j: int| i <= j < STATE_WIDTH ==> state@[j] == s0[j],
        decreases STATE_WIDTH - i,
    {
        state[i] = crate::math::field::sub(state[i], ark[offset + i]);
        i = i + 1;
    }
    assert(state@ =~= spec_sub_constants(s0, ark@, offset as int));
}

/// Raises each state element to the power ALPHA.
pub fn apply_sbox(state: &mut [u128; 4])
    ensures
        final(state)@ == sbox(old(state)@),
{
    let ghost s0 = state@;
    let mut i: usize = 0;
    while i < STATE_WIDTH
        invariant
            i <= STATE_WIDTH,
            state@.len() == STATE_WIDTH,
            s0.len() == STATE_WIDTH,
            forall|j: int| 0 <= j < i ==> state@[j] == sbox(s0)[j],
            forall|j: int| i <= j < STATE_WIDTH ==> state@[j] == s0[j],
        decreases STATE_WIDTH - i,
    {
        state[i] = crate::math::field::exp(state[i], ALPHA);
        i = i + 1;
    }
    assert(state@ =~= sbox(s0));
}

/// Raises each state element to the power INV_ALPHA.
pub fn apply_inv_sbox(state: &mut [u128; 4])
    ensures
        final(state)@ == inv_sbox(old(state)@),
{
    let ghost s0 = state@;
    let mut i: usize = 0;
    while i < STATE_WIDTH
        invariant
            i <= STATE_WIDTH,
            state@.len() == STATE_WIDTH,
            s0.len() == STATE_WIDTH,
            forall|j: int| 0 <= j < i ==> state@[j] == inv_sbox(s0)[j],
            forall|j: int| i <= j < STATE_WIDTH ==> state@[j] == s0[j],
        decreases STATE_WIDTH - i,
    {
        state[i] = crate::math::field::exp(state[i], INV_ALPHA);
        i = i + 1;
    }
    assert(state@ =~= inv_sbox(s0));
}

/// Multiplies the state by the MDS matrix.
pub fn apply_mds(state: &mut [u128; 4])
    ensures
        final(state)@ == spec_mds(old(state)@),
{
    let ghost s0 = state@;
    let mut result = [0u128; 4];
    let mut i: usize = 0;
    while i < STATE_WIDTH
        invariant
            i <= STATE_WIDTH,
            state@ == s0,
            s0.len() == STATE_WIDTH,
            forall|j: int| 0 <= j < i ==> result@[j] == spec_mds(s0)[j],
        decreases STATE_WIDTH - i,
    {
        result[i] = dot_product(&MDS, i * STATE_WIDTH, state, STATE_WIDTH);
        i = i + 1;
    }
    *state = result;
    assert(state@ =~= spec_mds(s0));
}

/// Multiplies the state by the inverse of the MDS matrix.
pub fn apply_inv_mds(state: &mut [u128; 4])
    ensures
        final(state)@ == spec_inv_mds(old(state)@),
{
    let ghost s0 = state@;
    let mut result = [0u128; 4];
    let mut i: usize = 0;
    while i < STATE_WIDTH
        invariant
            i <= STATE_WIDTH,
            state@ == s0,
            s0.len() == STATE_WIDTH,
            forall|j: int| 0 <= j < i ==> result@[j] == spec_inv_mds(s0)[j],
        decreases STATE_WIDTH - i,
    {
        result[i] = dot_product(&INV_MDS, i * STATE_WIDTH, state, STATE_WIDTH);
        i = i + 1;
    }
    *state = result;
    assert(state@ =~= spec_inv_mds(s0));
}


/// Adds `a` to the first and `b` to the second state element.
pub open spec fn spec_inject(s: Seq<u128>, a: u128, b: u128) -> Seq<u128> {
    s.update(0, f_add(s[0] as int, a as int) as u128).update(1, f_add(s[1] as int, b as int) as u128)
}

/// Adds `ark[offset..offset + STATE_WIDTH]` to the state.
pub open spec fn spec_add_ark(s: Seq<u128>, ark: Seq<u128>, offset: int) -> Seq<u128> {
    Seq::new(STATE_WIDTH as nat, |i: int| f_add(s[i] as int, ark[offset + i] as int) as u128)
}

/// One round of the sponge: the first half of a Rescue round (constants, S-box, MDS), injection
/// of `op_code` and `op_value` into the first two registers, and the second half (constants,
/// inverse S-box, MDS); round constants are those of step `step` of the cycle.
#[verifier::opaque]
pub open spec fn spec_round(s: Seq<u128>, op_code: u128, op_value: u128, step: int) -> Seq<u128> {
    let ark_idx = step % (CYCLE_LENGTH as int);
    let half = spec_inject(spec_mds(sbox(spec_add_constants(s, ark_idx, 0))), op_code, op_value);
    spec_mds(inv_sbox(spec_add_constants(half, ark_idx, STATE_WIDTH as int)))
}

/// Adds to the state the constants `ark[offset..offset + STATE_WIDTH]`.
pub fn add_ark(state: &mut [u128; 4], ark: &[u128], offset: usize)
    requires
        offset + STATE_WIDTH <= ark@.len(),
    ensures
        final(state)@ == spec_add_ark(old(state)@, ark@, offset as int),
{
    let ghost s0 = state@;
    let alen = ark.len();
    let mut i: usize = 0;
    while i < STATE_WIDTH
        invariant
            i <= STATE_WIDTH,
            offset + STATE_WIDTH <= ark@.len(),
            ark@.len() == alen,
            state@.len() == STATE_WIDTH,
            forall|j: int| 0 <= j < i ==> state@[j] == spec_add_ark(s0, ark@, offset as int)[j],
            forall|j: int| i <= j < STATE_WIDTH ==> state@[j] == s0[j],
        decreases STATE_WIDTH - i,
    {
        state[i] = crate::math::field::add(state[i], ark[offset + i]);
        i = i + 1;
    }
    assert(state@ =~= spec_add_ark(s0, ark@, offset as int));
}

/// Applies one round of the sponge to `state`, injecting `op_code` and `op_value` between the
/// two halves of the Rescue round; `step` selects the round constants.
pub fn apply_round(state: &mut [u128; 4], op_code: u128, op_value: u128, step: usize)
    ensures
        final(state)@ == spec_round(old(state)@, op_code, op_value, step as int),
{
    reveal(spec_round);
    let ark_idx = step % CYCLE_LENGTH;

    // apply first half of Rescue round
    add_constants(state, ark_idx, 0);
    apply_sbox(state);
    apply_mds(state);

    // inject value into the state
    state[0] = crate::math::field::add(state[0], op_code);
    state[1] = crate::math::field::add(state[1], op_value);

    // apply second half of Rescue round
    add_constants(state, ark_idx, STATE_WIDTH);
    apply_inv_sbox(state);
    apply_mds(state);
}

// LAWS
// ================================================================================================

/// Column `ark_idx` of the round constants: the constants of step `ark_idx` of the cycle, for
/// both halves of a round.
pub open spec fn ark_column(ark_idx: int) -> Seq<u128> {
    Seq::new(2 * STATE_WIDTH as nat, |r: int| ARK[r][ark_idx])
}

/// Subtracting a constant from a field element to which it was added gives the element back.
proof fn lemma_add_then_sub(a: u128, c: u128)
    requires
        a < MODULUS,
    ensures
        f_sub(f_add(a as int, c as int), c as int) == a,
{
    let m = MODULUS as int;
    let x = a + c;
    vstd::arithmetic::div_mod::lemma_sub_mod_noop(x, c as int, m);
    vstd::arithmetic::div_mod::lemma_sub_mod_noop_right(x % m, c as int, m);
    vstd::arithmetic::div_mod::lemma_small_mod(a as nat, m as nat);
    assert(x - c == a);
}

/// `sub_constants` with column `ark_idx` of the round constants undoes `add_constants` with the
/// same column and offset, on a state of canonical field elements.
pub proof fn lemma_sub_constants_undoes_add(s: Seq<u128>, ark_idx: int, offset: int)
    requires
        s.len() == STATE_WIDTH,
        state_is_canonical(s),
        0 <= ark_idx < CYCLE_LENGTH,
        0 <= offset,
        offset + STATE_WIDTH <= 2 * STATE_WIDTH,
    ensures
        spec_sub_constants(spec_add_constants(s, ark_idx, offset), ark_column(ark_idx), offset) == s,
{
    let t = spec_add_constants(s, ark_idx, offset);
    let u = spec_sub_constants(t, ark_column(ark_idx), offset);
    assert forall|i: int| 0 <= i < STATE_WIDTH implies u[i] == s[i] by {
        let c = ARK[offset + i][ark_idx];
        assert(ark_column(ark_idx)[offset + i] == c);
        lemma_add_then_sub(s[i], c);
        assert(0 <= f_add(s[i] as int, c as int) < MODULUS) by {
            vstd::arithmetic::div_mod::lemma_mod_bound(s[i] as int + c as int, MODULUS as int);
        }
        assert(t[i] as int == f_add(s[i] as int, c as int));
    }
    assert(u =~= s);
}

// CONSTANTS
// ================================================================================================

/// Maximum distance separable matrix of the Rescue permutation, stored row by row.
pub const MDS: [u128; 16] = [
    56713727820156410577229092992290826923u128, 48611766702991209066196365421963565934u128, 297747071055821155530452738209526841345u128, 264664063160729916027069100630690525640u128,
    48611766702991209066196365421963565934u128, 297747071055821155530452738209526841345u128, 264664063160729916027069100630690525640u128, 238197656844656924424362190567621473076u128,
    297747071055821155530452738209526841345u128, 264664063160729916027069100630690525640u128, 238197656844656924424362190567621473076u128, 216543324404233567658511082334201339160u128,
    264664063160729916027069100630690525640u128, 238197656844656924424362190567621473076u128, 216543324404233567658511082334201339160u128, 198498047370547437020301825473017894230u128,
];

/// Inverse of the MDS matrix, stored row by row.
pub const INV_MDS: [u128; 16] = [
    42336u128, 340282366920938463463374557953744780097u128, 249480u128, 340282366920938463463374557953744850657u128,
    340282366920938463463374557953744780097u128, 793800u128, 340282366920938463463374557953743852737u128, 498960u128,
    249480u128, 340282366920938463463374557953743852737u128, 1568160u128, 340282366920938463463374557953744248737u128,
    340282366920938463463374557953744850657u128, 498960u128, 340282366920938463463374557953744248737u128, 326700u128,
];

/// Round constants: rows `0..STATE_WIDTH` are added before the S-box, rows
/// `STATE_WIDTH..2 * STATE_WIDTH` before the inverse S-box; columns are the steps of a cycle.
pub const ARK: [[u128; 16]; 8] = [
    [
        298710040567525218777118256901078371579u128, 57565626666272077085276714419100596045u128, 55898118247904954245525463519785892811u128, 260087255528998570035417250819344793187u128,
        219437284737341687788174012853700118018u128, 177241945997284113147027926706441608483u128, 261600989605615425582040106310198211018u128, 60800839294723737207347566222925853927u128,
        317907491707132598352606146398324811559u128, 27950342635403409833488188018149461496u128, 173787368288835953219730897981857164464u128, 331447471592371302619808428081744948878u128,
        243377088213548089622686772508441724479u128, 71476747903176688101066302854802547197u128, 220675791512630749843324569929618201452u128, 16916063280790739427367534288223252122u128,
    ],
    [
        333810303236679101691496413460672814912u128, 79820854955759118184267781145467801512u128, 216059421868764630609073194571446484707u128, 183614239648713847067756268066859349372u128,
        107571957441444835603941320181108405908u128, 2080953450336231257296803866115392794u128, 143262796148151488305887355260074398445u128, 84929745326598227022711145473769990883u128,
        127289000963558999339003253537090503686u128, 327239393246173982108238533107863878276u128, 14277982708786678849538568340555434483u128, 247196471866866583556972217401188384838u128,
        203755467260001564142450517955114899827u128, 114949447629609772087017264485940443630u128, 176270904320923357258517050198758828055u128, 331538605747385949817769052863003343193u128,
    ],
    [
        218959877745753490366847922481474935692u128, 299589021573949238599263084054514355897u128, 337751778052824047705554163404264084994u128, 30236577024456731638647769952227339032u128,
        202090277242612469853042196681325482468u128, 335834235974498262101409810538025554338u128, 335478219406676357401801345603897792974u128, 330907455969861320914898452841654540020u128,
        301329509104997987046294372924709733351u128, 122984112070804098735950137582118400631u128, 141524847605558111346012718018739740506u128, 12313193304531907690992881211612360965u128,
        139871508112853231506739386089307955216u128, 43926462348800406172297321069306762928u128, 183505950949122605980144220764530149600u128, 324044160535449304918444899669386065713u128,
    ],
    [
        220425065278552117936274856124709295824u128, 290893913320061836613390053827375581455u128, 197988675046483353978375120206108368223u128, 231497984859337598119385353040880122679u128,
        85605198214796925669290938212293726015u128, 315104062694196908870847561447054285895u128, 296209513292956372719493153764440552623u128, 130498844790851614023807384309916330512u128,
        293848731309981437365979025964028655111u128, 223638619542599774679641698935382462010u128, 303241425697793055321862618405598819882u128, 81250935628257959680721795738582864436u128,
        207205117034201821073664864691094183197u128, 677871764112094258605049214076245408u128, 150579564899319279177647934701796250831u128, 96355322960632557654097931672715987953u128,
    ],
    [
        99552853595420563251767576090392665058u128, 163767504589313721901107893853547557115u128, 5154966023824869457314971327472854743u128, 94986577349825734424546347921684566400u128,
        180577911115957456570643168713242798775u128, 333362931469092712093434308724143486511u128, 51771265879170490922427750857737655258u128, 252973611957015583197865732614347812449u128,
        321734010451638777439150861679650042752u128, 84647443779204185040843731866484656382u128, 284037105253160437270797535734024368300u128, 5460264037678608009712276356682003607u128,
        183482024353270364500682961658402104293u128, 1271098505334574832146740631116635800u128, 232236824134525984615361230830117727376u128, 172791332052939207609333260918328139991u128,
    ],
    [
        200447519588698297926118856797950179301u128, 289803904947739968735255293005718723168u128, 273927251271812184464061142688843387920u128, 137517214168868576784460064723117872692u128,
        232923491469733642508161933675176708552u128, 301906796056525376885324150057378427290u128, 152238046347865527887618688203386423178u128, 124702225310384860332035564894602656813u128,
        100408597706801109326054297869554068232u128, 158778102111948874129423175818654443352u128, 113736576279179018018171517872007728167u128, 70868035602751660328260243410804059097u128,
        266195347530770789441418529877600953954u128, 246656092184465987022966924670578721263u128, 136195651239543744247833439109717942619u128, 235066444117230618814533006666449287060u128,
    ],
    [
        94396641255407548978119086203065754224u128, 267140897393479160730721986732982392897u128, 154829104740602760144531006906552490513u128, 221537415325513304749893639210510859387u128,
        86894344870095630686880298607002157333u128, 177831314270172315957413109662388777266u128, 84350694749326615220755580533588608896u128, 251827851824838007974049855458368779592u128,
        306971857729406227605742070461761933143u128, 265564980144977226694861198393035671508u128, 305134431465263496304778385542970584312u128, 260593641528188444528221095643801477382u128,
        192351151195266519855280717984707065020u128, 231182800528509618851204577126235792228u128, 168767520712729154372542842964842091419u128, 281195227989393405108578129367368970607u128,
    ],
    [
        295482531276402726201076998156549873336u128, 82162588561818628969110632459964672713u128, 52407270754701805701902342717735779209u128, 211475714587370414783992651783127420196u128,
        226647601179356652985755080641881428867u128, 250506234967026004579575471771594310085u128, 26043307006861752753397102169360127064u128, 43265849306369825833461203048024895468u128,
        189265942612477691573381378596446949638u128, 69366086683992356748788459065829796800u128, 78656397506677072313377894192360411229u128, 313718095388207112981218359101127235109u128,
        167821312345250250730188152346638603422u128, 155064133965600827294837906384003592658u128, 162853304331059942857677786854986965626u128, 160411964301473915250974849045075081603u128,
    ],
];


} // verus!
