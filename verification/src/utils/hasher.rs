use vstd::prelude::*;
use crate::math::field::{ f_add, f_sub, MODULUS };
use super::rescue::{ mat_vec, sbox, inv_sbox, dot_product, ALPHA, INV_ALPHA };

verus! {

/// Width of the Rescue state of the hash function applied to the stack by the RESCR operation.
pub const STATE_WIDTH: usize = 6usize;

/// Number of steps in one cycle of round constants.
pub const CYCLE_LENGTH: usize = 16usize;

/// Whether all values of a state are canonical field elements.
pub open spec fn state_is_canonical(s: Seq<u128>) -> bool {
    forall|i: int| 0 <= i < s.len() ==> s[i] < MODULUS
}

/// Adds round constants of column `ark_idx` from rows `offset..offset + STATE_WIDTH`.
pub open spec fn spec_add_constants(s: Seq<u128>, ark_idx: int, offset: int) -> Seq<u128> {
    Seq::new(STATE_WIDTH as nat, |i: int| f_add(s[i] as int, ARK[offset + i][ark_idx] as int) as u128)
}

/// Subtracts round constants of column `ark_idx` from rows `offset..offset + STATE_WIDTH`.
pub open spec fn spec_sub_constants(s: Seq<u128>, ark: Seq<u128>, offset: int) -> Seq<u128> {
    Seq::new(STATE_WIDTH as nat, |i: int| f_sub(s[i] as int, ark[offset + i] as int) as u128)
}

/// Multiplication of the state by the MDS matrix.
pub open spec fn spec_mds(s: Seq<u128>) -> Seq<u128> {
    mat_vec(MDS@, s, STATE_WIDTH as nat)
}

/// Multiplication of the state by the inverse of the MDS matrix.
pub open spec fn spec_inv_mds(s: Seq<u128>) -> Seq<u128> {
    mat_vec(INV_MDS@, s, STATE_WIDTH as nat)
}

/// Adds to each state element the round constant for step `ark_idx` of the cycle,
/// taken from rows `offset..offset + STATE_WIDTH` of the constant table.
pub fn add_constants(state: &mut [u128; 6], ark_idx: usize, offset: usize)
    requires
        ark_idx < CYCLE_LENGTH,
        offset + STATE_WIDTH <= 2 * STATE_WIDTH,
    ensures
        final(state)@ == spec_add_constants(old(state)@, ark_idx as int, offset as int),
{
    let ghost s0 = state@;
    let mut i: usize = 0;
    while i < STATE_WIDTH
        invariant
            i <= STATE_WIDTH,
            ark_idx < CYCLE_LENGTH,
            offset + STATE_WIDTH <= 2 * STATE_WIDTH,
            state@.len() == STATE_WIDTH,
            forall|j: int| 0 <= j < i ==> state@[j] == spec_add_constants(s0, ark_idx as int, offset as int)[j],
            forall|j: int| i <= j < STATE_WIDTH ==> state@[j] == s0[j],
        decreases STATE_WIDTH - i,
    {
        let c = ARK[offset + i][ark_idx];
        state[i] = crate::math::field::add(state[i], c);
        i = i + 1;
    }
    assert(state@ =~= spec_add_constants(s0, ark_idx as int, offset as int));
}

/// Subtracts from each state element the given round constants from positions
/// `offset..offset + STATE_WIDTH` of `ark`.
pub fn sub_constants(state: &mut [u128; 6], ark: &[u128], offset: usize)
    requires
        offset + STATE_WIDTH <= ark@.len(),
    ensures
        final(state)@ == spec_sub_constants(old(state)@, ark@, offset as int),
{
    let ghost s0 = state@;
    let alen = ark.len();
    let mut i: usize = 0;
    while i < STATE_WIDTH
        invariant
            i <= STATE_WIDTH,
            offset + STATE_WIDTH <= ark@.len(),
            ark@.len() == alen,
            state@.len() == STATE_WIDTH,
            forall|j: int| 0 <= j < i ==> state@[j] == spec_sub_constants(s0, ark@, offset as int)[j],
            forall|j: int| i <= j < STATE_WIDTH ==> state@[j] == s0[j],
        decreases STATE_WIDTH - i,
    {
        state[i] = crate::math::field::sub(state[i], ark[offset + i]);
        i = i + 1;
    }
    assert(state@ =~= spec_sub_constants(s0, ark@, offset as int));
}

/// Raises each state element to the power ALPHA.
pub fn apply_sbox(state: &mut [u128; 6])
    ensures
        final(state)@ == sbox(old(state)@),
{
    let ghost s0 = state@;
    let mut i: usize = 0;
    while i < STATE_WIDTH
        invariant
            i <= STATE_WIDTH,
            state@.len() == STATE_WIDTH,
            s0.len() == STATE_WIDTH,
            forall|j: int| 0 <= j < i ==> state@[j] == sbox(s0)[j],
            forall|j: int| i <= j < STATE_WIDTH ==> state@[j] == s0[j],
        decreases STATE_WIDTH - i,
    {
        state[i] = crate::math::field::exp(state[i], ALPHA);
        i = i + 1;
    }
    assert(state@ =~= sbox(s0));
}

/// Raises each state element to the power INV_ALPHA.
pub fn apply_inv_sbox(state: &mut [u128; 6])
    ensures
        final(state)@ == inv_sbox(old(state)@),
{
    let ghost s0 = state@;
    let mut i: usize = 0;
    while i < STATE_WIDTH
        invariant
            i <= STATE_WIDTH,
            state@.len() == STATE_WIDTH,
            s0.len() == STATE_WIDTH,
            forall|j: int| 0 <= j < i ==> state@[j] == inv_sbox(s0)[j],
            forall|j: int| i <= j < STATE_WIDTH ==> state@[j] == s0[j],
        decreases STATE_WIDTH - i,
    {
        state[i] = crate::math::field::exp(state[i], INV_ALPHA);
        i = i + 1;
    }
    assert(state@ =~= inv_sbox(s0));
}

/// Multiplies the state by the MDS matrix.
pub fn apply_mds(state: &mut [u128; 6])
    ensures
        final(state)@ == spec_mds(old(state)@),
{
    let ghost s0 = state@;
    let mut result = [0u128; 6];
    let mut i: usize = 0;
    while i < STATE_WIDTH
        invariant
            i <= STATE_WIDTH,
            state@ == s0,
            s0.len() == STATE_WIDTH,
            forall|j: int| 0 <= j < i ==> result@[j] == spec_mds(s0)[j],
        decreases STATE_WIDTH - i,
    {
        result[i] = dot_product(&MDS, i * STATE_WIDTH, state, STATE_WIDTH);
        i = i + 1;
    }
    *state = result;
    assert(state@ =~= spec_mds(s0));
}

/// Multiplies the state by the inverse of the MDS matrix.
pub fn apply_inv_mds(state: &mut [u128; 6])
    ensures
        final(state)@ == spec_inv_mds(old(state)@),
{
    let ghost s0 = state@;
    let mut result = [0u128; 6];
    let mut i: usize = 0;
    while i < STATE_WIDTH
        invariant
            i <= STATE_WIDTH,
            state@ == s0,
            s0.len() == STATE_WIDTH,
            forall|j: int| 0 <= j < i ==> result@[j] == spec_inv_mds(s0)[j],
        decreases STATE_WIDTH - i,
    {
        result[i] = dot_product(&INV_MDS, i * STATE_WIDTH, state, STATE_WIDTH);
        i = i + 1;
    }
    *state = result;
    assert(state@ =~= spec_inv_mds(s0));
}

// CONSTANTS
// ================================================================================================

/// Maximum distance separable matrix of the Rescue permutation, stored row by row.
pub const MDS: [u128; 36] = [
    297747071055821155530452738209526841345u128, 264664063160729916027069100630690525640u128, 238197656844656924424362190567621473076u128, 216543324404233567658511082334201339160u128, 198498047370547437020301825473017894230u128, 130877833431130178255144060751440369822u128,
    264664063160729916027069100630690525640u128, 238197656844656924424362190567621473076u128, 216543324404233567658511082334201339160u128, 198498047370547437020301825473017894230u128, 130877833431130178255144060751440369822u128, 24305883351495604533098182710981782967u128,
    238197656844656924424362190567621473076u128, 216543324404233567658511082334201339160u128, 198498047370547437020301825473017894230u128, 130877833431130178255144060751440369822u128, 24305883351495604533098182710981782967u128, 158798437896437949616241460378414315384u128,
    216543324404233567658511082334201339160u128, 198498047370547437020301825473017894230u128, 130877833431130178255144060751440369822u128, 24305883351495604533098182710981782967u128, 158798437896437949616241460378414315384u128, 319014718988379809496913648081635901441u128,
    198498047370547437020301825473017894230u128, 130877833431130178255144060751440369822u128, 24305883351495604533098182710981782967u128, 158798437896437949616241460378414315384u128, 319014718988379809496913648081635901441u128, 40033219637757466289808771523969995475u128,
    130877833431130178255144060751440369822u128, 24305883351495604533098182710981782967u128, 158798437896437949616241460378414315384u128, 319014718988379809496913648081635901441u128, 40033219637757466289808771523969995475u128, 132332031580364958013534550315345262820u128,
];

/// Inverse of the MDS matrix, stored row by row.
pub const INV_MDS: [u128; 36] = [
    13250952u128, 340282366920938463463374557953641898577u128, 309188880u128, 340282366920938463463374557953295232257u128, 318558240u128, 340282366920938463463374557953656745409u128,
    340282366920938463463374557953641898577u128, 811620810u128, 340282366920938463463374557951285504537u128, 3607203600u128, 340282366920938463463374557951171991137u128, 716756040u128,
    309188880u128, 340282366920938463463374557951285504537u128, 7515007500u128, 340282366920938463463374557942645873537u128, 7963956000u128, 340282366920938463463374557951515053857u128,
    340282366920938463463374557953295232257u128, 3607203600u128, 340282366920938463463374557942645873537u128, 16490073600u128, 340282366920938463463374557941852120577u128, 3344861520u128,
    318558240u128, 340282366920938463463374557951171991137u128, 7963956000u128, 340282366920938463463374557941852120577u128, 8615552400u128, 340282366920938463463374557951312334977u128,
    340282366920938463463374557953656745409u128, 716756040u128, 340282366920938463463374557951515053857u128, 3344861520u128, 340282366920938463463374557951312334977u128, 689244192u128,
];

/// Round constants: rows `0..STATE_WIDTH` are added before the S-box, rows
/// `STATE_WIDTH..2 * STATE_WIDTH` before the inverse S-box; columns are the steps of a cycle.
pub const ARK: [[u128; 16]; 12] = [
    [
        31366638554495113127395040117219203529u128, 304672192881275375853835944867497847057u128, 121766898337175289986254663900102355449u128, 193335605100963500868220299845791044882u128,
        294798195631038876087850119043572908017u128, 293374839353982204325471746947222553410u128, 272470114580202119651426976023033842693u128, 87938135927713384973232624317754785851u128,
        147662514581507693934971714168766096348u128, 224575396478406266393911974268670561917u128, 166692437007773564556958448635930215836u128, 180226546730737038734293819670813439053u128,
        300855763276998667732584094578133918887u128, 4201330825143004654167303079677601666u128, 197150638649270582915524812372020277461u128, 53520405671667462446899554078390521489u128,
    ],
    [
        128211159357473740771972444323348059520u128, 327484186176171888426590656487465082357u128, 138421965674781532597276883044026529500u128, 263900274412891846568080552983366741200u128,
        230639795357860467508046139592567102602u128, 140957372781319898664001525542082618217u128, 211487406646601935989055028414912760418u128, 271584761653848055029176555698791853653u128,
        128865887379243291826655293970913149298u128, 263946662984502905454018431463323155629u128, 140133774785343419982540160530229531159u128, 34944721854478368302889583737684107406u128,
        288155483101461186441372016453026862174u128, 150224816119014687213160638704287727942u128, 194259345245920638273770392563502886159u128, 54191570539273229690386782381220263257u128,
    ],
    [
        328238782178655701549770895323532905441u128, 257030386753239346609118646582532102494u128, 196379634083822256364535393791866112220u128, 66148358318098042792807332244033124889u128,
        205539222444425203356062859546098551994u128, 6412828475347203352034290012390972496u128, 278573574207777602577647145412955675867u128, 205523002167010990365560179329109954003u128,
        248240230394758735655100261929968148976u128, 255648378330343124398541650169515036071u128, 295849553123032162287416528904256064335u128, 323472049135176163129631136769093982464u128,
        81341050420298673347011858637425093312u128, 45598386102836908801951885617439427861u128, 233909535851126861010133511309068038033u128, 292667905965231946265508144598740570590u128,
    ],
    [
        317138527276263787778167526228812876u128, 73655869097973843240479873956540082848u128, 43797615889392363243175752449069983675u128, 143993458274840147863715175329515050385u128,
        118393224716139789745997309342763889767u128, 79200159451623963980935159431978622115u128, 44679998227097938019999497157701561745u128, 309287366349379177109138846200020235761u128,
        238945629396194216507780608390954203714u128, 198201420171515574233321311644027054491u128, 215241344223071108628206074631254398168u128, 301257179015854654808790585685946963977u128,
        36168100765852294097073206327078077879u128, 87665541568791128871495683168472776287u128, 66469726470276126676011633187202628679u128, 169261319069172856919060323759665519188u128,
    ],
    [
        90268988868098417808999890280351899541u128, 310752951505081908156021737322593048255u128, 161760805117353801798762783122075413863u128, 200949046846784797493150052372968926911u128,
        297702301520852961364861924842353487413u128, 43867170811249765896183768921368228934u128, 123971050944725543129990808948796772632u128, 297443376273005703990362968965932110542u128,
        94827700389751914124589596372540622774u128, 147688966083382875894821569591371658119u128, 35331635368917979945429997611019827798u128, 111500068265590758628659988632083353954u128,
        260705335337310028021663017882897947715u128, 129330840327621274310903457257786911409u128, 88322090286860286673927590139490555654u128, 165588658556543327969507173082750239196u128,
    ],
    [
        251104846759989606095052147635372281625u128, 286571913380248312098497396605456124309u128, 172654813669478428653747397506894684705u128, 33730008920282969304643423963262336907u128,
        87694277781924181355433108288989024474u128, 132922869933744810456980944215042244690u128, 302140460095150822415996937430943242501u128, 232509496872302039725140118063811132727u128,
        41982306544622481966527842124663773186u128, 103068779281041440492703418097440977899u128, 167556827090673157675182212297035460168u128, 65524738572633124686236932132787440853u128,
        265020391296749441639320068954599220543u128, 296669300184507365637299052662719095473u128, 143550260321118168248310780751932394260u128, 3234147054603003696224413983847770136u128,
    ],
    [
        158523687650884529650826927650141984203u128, 200831438543911222343304964672223791508u128, 85589611441146451228190407453975353668u128, 511876013064535855955573067838592041u128,
        15272353275519113028762644190592435791u128, 220570225069913267124025909738216694362u128, 321431416668265997371022348986434283743u128, 58021844537086291418222318603829255176u128,
        23078330164604913099949005279059163246u128, 34526930510186091297265294710444342233u128, 320443846262235557495813366793942457838u128, 18032515622079427161948453079547012301u128,
        177974753187129045426825365537629326263u128, 143083476049893490450388004446941135723u128, 199639148933270934213278488941021972711u128, 17293376805282076706181014787668840533u128,
    ],
    [
        325194369337337863045571537972852808701u128, 53421794503991959862939745424915576448u128, 177418171452568197651665689720597139234u128, 51809958039794515299281947017924145355u128,
        70372039869881201879934369701880911661u128, 313010918747331494242184336981721799765u128, 150166503045281338579850300803979115531u128, 335687958451561054788016562380387748786u128,
        71380178383728858163285718218071456624u128, 365153042692999485703482517851127638u128, 291453873721661390152658791286101337615u128, 169352829679815824534486448275563300995u128,
        24728518483905426189476470111075033006u128, 306571924302147865734658919341323496274u128, 286221986396677624144855875062437912906u128, 147657361469805874380590970866185677676u128,
    ],
    [
        19004110544527197181245335318126242488u128, 254967699321290708262727461448564514103u128, 67167742686136204295210611666401023150u128, 268601132264339180259695360305645913099u128,
        106388623382229707425505546322237139525u128, 40030310048415556138030174627792196744u128, 21132441723170115823024202230039674609u128, 60664614504937311387961587902190971830u128,
        229188191899363652226459505523118441961u128, 298732669350295688794585740532687159244u128, 281781016724702808774569896294655520137u128, 230798627137476686744851770918310245751u128,
        183173423801351444662284550232107078199u128, 156974560025626588606655512091855357437u128, 195143860924748500789151283322202043765u128, 335919352115947986228186484801833471916u128,
    ],
    [
        121258406734998788643986642050784685856u128, 202282080969841051101137780374320462506u128, 142671563901694588030992207054652813091u128, 235136171504676066297629117842110788086u128,
        49186678030304239694496012257759180025u128, 107996104598388856335570210223918887407u128, 153238429849272009042967602340918639880u128, 16619444497984088176042741835719148033u128,
        173535829410221719673958343669644618595u128, 266884758683797803424525256603080601908u128, 138435624746309063751138694441516228480u128, 296618312376347447815488261398565068128u128,
        46237045770318957541867571479681052009u128, 180696224606854487974145061356400669677u128, 190109512947602414402986642353238311375u128, 279131153012437573289307413006681703243u128,
    ],
    [
        202467210782678345214612190577800949407u128, 25950101200693245797908779934354280855u128, 132560140281026475683998073448101746505u128, 275915927914563196278401993601988920498u128,
        119405724329860696485298933131149896127u128, 134382600587658100501715893839544432627u128, 30408589166707754622044609891118812150u128, 281038012578648149185525124418989069919u128,
        160719976185670623516837848120668081083u128, 121190335825720534712033088324569740382u128, 247050701379315323209365636491690933493u128, 134540151450408399386123051883855514123u128,
        309646145882418997368423060890317826861u128, 78274341628873548826020047309715983888u128, 271659723115394811685856477275410958575u128, 115119300949903190694106450799684813752u128,
    ],
    [
        313232755738166713222377134828297178194u128, 146800304361666716062458634705651259056u128, 206521024351155946985243802865569519167u128, 861234373655311388662961115089669916u128,
        282802865327778807291187696983996354361u128, 103280289031246212075055599579709388520u128, 9806776505492063525649030447863931998u128, 192076499359601356846111100739762950741u128,
        195848917142398079710861838229107201003u128, 116978240838005257082068023133601482629u128, 7916418284743831496945140865651440377u128, 17355690265645706170850690682347574952u128,
        274176666926887024389984922366056139988u128, 93394969447460121641594056547295961123u128, 153841611608279983956895656933923270871u128, 152981937220831007665911159529818033038u128,
    ],
];


} // verus!
