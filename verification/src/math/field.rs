use vstd::prelude::*;
use vstd::arithmetic::power::*;
use vstd::arithmetic::div_mod::*;
use vstd::arithmetic::mul::*;

verus! {

/// Modulus of the prime field: 2^128 - 45 * 2^40 + 1.
pub const MODULUS: u128 = 340282366920938463463374557953744961537u128;

/// Additive identity of the field.
pub const ZERO: u128 = 0u128;

/// Multiplicative identity of the field.
pub const ONE: u128 = 1u128;

/// Generator of the multiplicative subgroup of order 2^40 (equal to 3^((p - 1) / 2^40)).
pub const G: u128 = 23953097886125630542083529559205016746u128;

/// Largest power of two that divides the order of the multiplicative group.
pub const TWO_ADICITY: u32 = 40u32;

/// The field modulus as a mathematical integer.
pub open spec fn modulus() -> int {
    MODULUS as int
}

/// A value is a canonical field element when it is smaller than the modulus.
pub open spec fn is_element(v: u128) -> bool {
    v < MODULUS
}

/// Field addition of two integers, reduced into [0, p).
pub open spec fn f_add(a: int, b: int) -> int {
    (a + b) % modulus()
}

/// Field subtraction of two integers, reduced into [0, p).
pub open spec fn f_sub(a: int, b: int) -> int {
    (a - b) % modulus()
}

/// Field multiplication of two integers, reduced into [0, p).
pub open spec fn f_mul(a: int, b: int) -> int {
    (a * b) % modulus()
}

/// Field negation, reduced into [0, p).
pub open spec fn f_neg(a: int) -> int {
    (0 - a) % modulus()
}

/// Field exponentiation, reduced into [0, p).
pub open spec fn f_exp(b: int, e: nat) -> int {
    pow(b, e) % modulus()
}

/// Field inversion as computed by the library: x^(p - 2).
pub open spec fn f_inv(a: int) -> int {
    f_exp(a, (modulus() - 2) as nat)
}

/// Reduces any 128-bit value into its canonical representative.
fn reduce(a: u128) -> (r: u128)
    ensures
        r == (a as int) % modulus(),
        r < MODULUS,
{
    if a >= MODULUS {
        proof {
            lemma_mod_sub_once(a as int);
        }
        a - MODULUS
    } else {
        proof {
            lemma_small_mod(a as nat, MODULUS as nat);
        }
        a
    }
}

proof fn lemma_mod_sub_once(x: int)
    requires
        modulus() <= x < 2 * modulus(),
    ensures
        x % modulus() == x - modulus(),
{
    lemma_fundamental_div_mod(x, modulus());
    lemma_mod_bound(x, modulus());
    let q = x / modulus();
    assert(q == 1) by (nonlinear_arith)
        requires
            x == modulus() * q + x % modulus(),
            0 <= x % modulus() < modulus(),
            modulus() <= x < 2 * modulus(),
            modulus() > 0,
    ;
}

/// Computes (a + b) mod p for any two 128-bit values.
pub fn add(a: u128, b: u128) -> (r: u128)
    ensures
        r == f_add(a as int, b as int),
        r < MODULUS,
{
    let x = reduce(a);
    let y = reduce(b);
    proof {
        lemma_add_mod_noop(a as int, b as int, modulus());
    }
    if x >= MODULUS - y {
        let r = x - (MODULUS - y);
        proof {
            lemma_mod_sub_once(x + y);
        }
        r
    } else {
        proof {
            lemma_small_mod((x + y) as nat, MODULUS as nat);
        }
        x + y
    }
}

/// Computes (a - b) mod p for any two 128-bit values.
pub fn sub(a: u128, b: u128) -> (r: u128)
    ensures
        r == f_sub(a as int, b as int),
        r < MODULUS,
{
    let x = reduce(a);
    let y = reduce(b);
    proof {
        lemma_sub_mod_noop(a as int, b as int, modulus());
    }
    if x >= y {
        proof {
            lemma_small_mod((x - y) as nat, MODULUS as nat);
        }
        x - y
    } else {
        proof {
            lemma_mod_add_multiples_vanish(x - y, modulus());
            lemma_small_mod((x - y + modulus()) as nat, MODULUS as nat);
        }
        MODULUS - (y - x)
    }
}

/// Computes -a mod p for any 128-bit value.
pub fn neg(a: u128) -> (r: u128)
    ensures
        r == f_neg(a as int),
        r < MODULUS,
{
    self::sub(ZERO, a)
}

/// Computes (a * b) mod p for any two 128-bit values.
pub fn mul(a: u128, b: u128) -> (r: u128)
    ensures
        r == f_mul(a as int, b as int),
        r < MODULUS,
{
    let mut acc: u128 = 0;
    let mut base: u128 = reduce(a);
    let mut e: u128 = b;
    proof {
        lemma_mul_mod_noop_left(a as int, b as int, modulus());
        lemma_small_mod(0, MODULUS as nat);
    }
    while e > 0
        invariant
            acc < MODULUS,
            base < MODULUS,
            (acc + base * e) % modulus() == (a as int * b as int) % modulus(),
        decreases e,
    {
        let ghost old_acc = acc as int;
        let ghost old_base = base as int;
        let ghost old_e = e as int;
        if e % 2 == 1 {
            acc = self::add(acc, base);
        }
        base = self::add(base, base);
        e = e / 2;
        proof {
            lemma_step_double_and_add(old_acc, old_base, old_e, acc as int, base as int, e as int);
        }
    }
    proof {
        lemma_small_mod(acc as nat, MODULUS as nat);
    }
    acc
}

proof fn lemma_step_double_and_add(acc: int, base: int, e: int, acc2: int, base2: int, e2: int)
    requires
        e > 0,
        e2 == e / 2,
        acc2 == (if e % 2 == 1 { (acc + base) % modulus() } else { acc }),
        base2 == (base + base) % modulus(),
    ensures
        (acc2 + base2 * e2) % modulus() == (acc + base * e) % modulus(),
{
    let m = modulus();
    lemma_fundamental_div_mod(e, 2);
    // base2 * e2 == (2 * base) * e2 (mod m)
    lemma_mul_mod_noop_left(base + base, e2, m);
    assert((base + base) * e2 == base * (2 * e2)) by (nonlinear_arith);
    let bit = e % 2;
    assert(e == 2 * e2 + bit);
    assert(base * e == base * (2 * e2) + base * bit) by (nonlinear_arith)
        requires
            e == 2 * e2 + bit,
    ;
    if bit == 1 {
        lemma_add_mod_noop(acc + base, base2 * e2, m);
        lemma_mod_twice(acc + base, m);
        lemma_add_mod_noop(acc + base, (base + base) * e2, m);
        lemma_mod_twice((base + base) * e2, m);
    } else {
        assert(bit == 0);
        lemma_add_mod_noop(acc, base2 * e2, m);
        lemma_add_mod_noop(acc, (base + base) * e2, m);
        lemma_mod_twice((base + base) * e2, m);
    }
}

/// Computes b^e mod p for any 128-bit base and exponent.
pub fn exp(b: u128, e: u128) -> (r: u128)
    ensures
        r == f_exp(b as int, e as nat),
        r < MODULUS,
{
    let mut acc: u128 = ONE;
    let mut base: u128 = reduce(b);
    let mut k: u128 = e;
    proof {
        lemma_pow_mod_noop(b as int, e as nat, modulus());
        lemma_pow0(b as int);
        lemma_mul_basics(pow(base as int, k as nat));
    }
    while k > 0
        invariant
            acc < MODULUS,
            base < MODULUS,
            (acc * pow(base as int, k as nat)) % modulus() == pow(b as int, e as nat) % modulus(),
        decreases k,
    {
        let ghost old_acc = acc as int;
        let ghost old_base = base as int;
        let ghost old_k = k as nat;
        if k % 2 == 1 {
            acc = self::mul(acc, base);
        }
        base = self::mul(base, base);
        k = k / 2;
        proof {
            lemma_step_square_and_multiply(old_acc, old_base, old_k, acc as int, base as int, k as nat);
        }
    }
    proof {
        lemma_pow0(base as int);
        lemma_small_mod(acc as nat, MODULUS as nat);
    }
    acc
}

proof fn lemma_step_square_and_multiply(acc: int, base: int, k: nat, acc2: int, base2: int, k2: nat)
    requires
        k > 0,
        k2 == k / 2,
        acc2 == (if k % 2 == 1 { (acc * base) % modulus() } else { acc }),
        base2 == (base * base) % modulus(),
    ensures
        (acc2 * pow(base2, k2)) % modulus() == (acc * pow(base, k)) % modulus(),
{
    let m = modulus();
    let bit: nat = k % 2;
    lemma_fundamental_div_mod(k as int, 2);
    assert(k == 2 * k2 + bit);
    // pow(base2, k2) == pow(base * base, k2) (mod m)
    lemma_pow_mod_noop(base * base, k2, m);
    lemma_square_is_pow2(base);
    lemma_pow_multiplies(base, 2, k2);
    // pow(base, k) == pow(base, 2 * k2) * pow(base, bit)
    lemma_pow_adds(base, 2 * k2, bit);
    let p2 = pow(base, 2 * k2);
    assert(pow(base2, k2) % m == p2 % m);
    let x = pow(base2, k2);
    if bit == 1 {
        lemma_pow1(base);
        let ab = acc * base;
        lemma_mul_mod_noop_left(ab, x, m);
        lemma_mul_mod_noop_right(ab, x, m);
        lemma_mul_mod_noop_right(ab, p2, m);
        assert(pow(base, k) == p2 * base);
        assert(acc * (p2 * base) == ab * p2) by (nonlinear_arith)
            requires
                ab == acc * base,
        ;
    } else {
        lemma_pow0(base);
        lemma_mul_mod_noop_right(acc, x, m);
        lemma_mul_mod_noop_right(acc, p2, m);
        assert(pow(base, k) == p2);
    }
}

/// Computes the multiplicative inverse of `a` as a^(p - 2); zero maps to zero.
pub fn inv(a: u128) -> (r: u128)
    ensures
        r == f_inv(a as int),
        r < MODULUS,
{
    exp(a, MODULUS - 2)
}

/// The root of unity of order 2^k used by the library: G^(2^(40 - k)).
pub open spec fn root_of_unity(k: nat) -> int {
    f_exp(G as int, vstd::arithmetic::power2::pow2((TWO_ADICITY - k) as nat))
}

/// The root of unity of order `order`, a power of two not larger than 2^40.
pub open spec fn root_of_order(order: nat) -> int {
    root_of_unity(choose|k: nat| k <= TWO_ADICITY && vstd::arithmetic::power2::pow2(k) == order)
}

/// Squaring a power of `b` doubles its exponent.
proof fn lemma_exp_square_pow2(b: int, k: nat)
    ensures
        f_exp(b, vstd::arithmetic::power2::pow2(k + 1)) == f_mul(f_exp(b, vstd::arithmetic::power2::pow2(k)), f_exp(b, vstd::arithmetic::power2::pow2(k))),
{
    let e = vstd::arithmetic::power2::pow2(k);
    vstd::arithmetic::power2::lemma_pow2_unfold(k + 1);
    lemma_pow_adds(b, e, e);
    assert(e + e == vstd::arithmetic::power2::pow2(k + 1));
    lemma_mul_mod_noop(pow(b, e), pow(b, e), modulus());
}

/// G has order dividing 2^40: G raised to 2^40 is one.
proof fn lemma_generator_order()
    ensures
        f_exp(G as int, vstd::arithmetic::power2::pow2(TWO_ADICITY as nat)) == 1,
{
    vstd::arithmetic::power2::lemma2_to64();
    lemma_pow1(G as int);
    lemma_small_mod(G as nat, MODULUS as nat);
    assert(f_exp(G as int, vstd::arithmetic::power2::pow2(0)) == 23953097886125630542083529559205016746int);
    lemma_exp_square_pow2(G as int, 0);
    assert(f_exp(G as int, vstd::arithmetic::power2::pow2(1)) == 35350638386970032172984936585581935132int);
    lemma_exp_square_pow2(G as int, 1);
    assert(f_exp(G as int, vstd::arithmetic::power2::pow2(2)) == 299954005975610588960127445028302232223int);
    lemma_exp_square_pow2(G as int, 2);
    assert(f_exp(G as int, vstd::arithmetic::power2::pow2(3)) == 268766450299833026803380043897077376800int);
    lemma_exp_square_pow2(G as int, 3);
    assert(f_exp(G as int, vstd::arithmetic::power2::pow2(4)) == 89174229732314908188995092058605097813int);
    lemma_exp_square_pow2(G as int, 4);
    assert(f_exp(G as int, vstd::arithmetic::power2::pow2(5)) == 143218246544836534011030291670299423880int);
    lemma_exp_square_pow2(G as int, 5);
    assert(f_exp(G as int, vstd::arithmetic::power2::pow2(6)) == 57965223245286836778812812814672043990int);
    lemma_exp_square_pow2(G as int, 6);
    assert(f_exp(G as int, vstd::arithmetic::power2::pow2(7)) == 113786451272006480597838504530998532563int);
    lemma_exp_square_pow2(G as int, 7);
    assert(f_exp(G as int, vstd::arithmetic::power2::pow2(8)) == 309289104524954779508682525960258742689int);
    lemma_exp_square_pow2(G as int, 8);
    assert(f_exp(G as int, vstd::arithmetic::power2::pow2(9)) == 288816269265998269031362754590810763605int);
    lemma_exp_square_pow2(G as int, 9);
    assert(f_exp(G as int, vstd::arithmetic::power2::pow2(10)) == 202477457160817175448865276649579603917int);
    lemma_exp_square_pow2(G as int, 10);
    assert(f_exp(G as int, vstd::arithmetic::power2::pow2(11)) == 291002859220333128737256428414248618176int);
    lemma_exp_square_pow2(G as int, 11);
    assert(f_exp(G as int, vstd::arithmetic::power2::pow2(12)) == 262210191456112222089946877103618371206int);
    lemma_exp_square_pow2(G as int, 12);
    assert(f_exp(G as int, vstd::arithmetic::power2::pow2(13)) == 169373083560288093220735695737231471437int);
    lemma_exp_square_pow2(G as int, 13);
    assert(f_exp(G as int, vstd::arithmetic::power2::pow2(14)) == 317147576029044052645335895261115550549int);
    lemma_exp_square_pow2(G as int, 14);
    assert(f_exp(G as int, vstd::arithmetic::power2::pow2(15)) == 171943168142144822891930992597926800892int);
    lemma_exp_square_pow2(G as int, 15);
    assert(f_exp(G as int, vstd::arithmetic::power2::pow2(16)) == 21541544435346836569580739457897096494int);
    lemma_exp_square_pow2(G as int, 16);
    assert(f_exp(G as int, vstd::arithmetic::power2::pow2(17)) == 129999756949660917902024189910922888825int);
    lemma_exp_square_pow2(G as int, 17);
    assert(f_exp(G as int, vstd::arithmetic::power2::pow2(18)) == 282895836292207208096400573424606654993int);
    lemma_exp_square_pow2(G as int, 18);
    assert(f_exp(G as int, vstd::arithmetic::power2::pow2(19)) == 296306845119133820321445521995708450385int);
    lemma_exp_square_pow2(G as int, 19);
    assert(f_exp(G as int, vstd::arithmetic::power2::pow2(20)) == 273165856257350751056968870452379473385int);
    lemma_exp_square_pow2(G as int, 20);
    assert(f_exp(G as int, vstd::arithmetic::power2::pow2(21)) == 283839073377153370490835339938956596768int);
    lemma_exp_square_pow2(G as int, 21);
    assert(f_exp(G as int, vstd::arithmetic::power2::pow2(22)) == 105008128617997753376638997239831545739int);
    lemma_exp_square_pow2(G as int, 22);
    assert(f_exp(G as int, vstd::arithmetic::power2::pow2(23)) == 212059004665593815414574723988717234852int);
    lemma_exp_square_pow2(G as int, 23);
    assert(f_exp(G as int, vstd::arithmetic::power2::pow2(24)) == 58939217512625066836357447684907331649int);
    lemma_exp_square_pow2(G as int, 24);
    assert(f_exp(G as int, vstd::arithmetic::power2::pow2(25)) == 183662900539509792375083495535218036265int);
    lemma_exp_square_pow2(G as int, 25);
    assert(f_exp(G as int, vstd::arithmetic::power2::pow2(26)) == 115107371550849943973561963938279885671int);
    lemma_exp_square_pow2(G as int, 26);
    assert(f_exp(G as int, vstd::arithmetic::power2::pow2(27)) == 143637997944725862918595393408258080276int);
    lemma_exp_square_pow2(G as int, 27);
    assert(f_exp(G as int, vstd::arithmetic::power2::pow2(28)) == 196934114662940666259486270002338730851int);
    lemma_exp_square_pow2(G as int, 28);
    assert(f_exp(G as int, vstd::arithmetic::power2::pow2(29)) == 154861683792053392940461127428578350419int);
    lemma_exp_square_pow2(G as int, 29);
    assert(f_exp(G as int, vstd::arithmetic::power2::pow2(30)) == 246301224039257635126066389490736973866int);
    lemma_exp_square_pow2(G as int, 30);
    assert(f_exp(G as int, vstd::arithmetic::power2::pow2(31)) == 112446981247494782863319391933539286082int);
    lemma_exp_square_pow2(G as int, 31);
    assert(f_exp(G as int, vstd::arithmetic::power2::pow2(32)) == 136257249355923752058795611038843206115int);
    lemma_exp_square_pow2(G as int, 32);
    assert(f_exp(G as int, vstd::arithmetic::power2::pow2(33)) == 317382179358537364646726782080101653266int);
    lemma_exp_square_pow2(G as int, 33);
    assert(f_exp(G as int, vstd::arithmetic::power2::pow2(34)) == 192007975586228866417180181358753507136int);
    lemma_exp_square_pow2(G as int, 34);
    assert(f_exp(G as int, vstd::arithmetic::power2::pow2(35)) == 177163815491556666773578150685041292257int);
    lemma_exp_square_pow2(G as int, 35);
    assert(f_exp(G as int, vstd::arithmetic::power2::pow2(36)) == 207780475876815746145724302740566066789int);
    lemma_exp_square_pow2(G as int, 36);
    assert(f_exp(G as int, vstd::arithmetic::power2::pow2(37)) == 215461094455166043855249150037908117929int);
    lemma_exp_square_pow2(G as int, 37);
    assert(f_exp(G as int, vstd::arithmetic::power2::pow2(38)) == 227605400907528469561203326827972759358int);
    lemma_exp_square_pow2(G as int, 38);
    assert(f_exp(G as int, vstd::arithmetic::power2::pow2(39)) == 340282366920938463463374557953744961536int);
    lemma_exp_square_pow2(G as int, 39);
    assert(f_exp(G as int, vstd::arithmetic::power2::pow2(40)) == 1int);
}

/// Multiplying a power of `b` by `b` raises its exponent by one.
pub proof fn lemma_exp_succ(b: int, e: nat)
    ensures
        f_mul(f_exp(b, e), b) == f_exp(b, e + 1),
{
    lemma_pow_adds(b, e, 1);
    lemma_pow1(b);
    lemma_mul_mod_noop_left(pow(b, e), b, modulus());
}

/// The root of unity of order 2^k, raised to 2^k, is one.
pub proof fn lemma_root_of_unity_order(k: nat)
    requires
        k <= TWO_ADICITY,
    ensures
        f_exp(root_of_unity(k), vstd::arithmetic::power2::pow2(k)) == 1,
{
    let a = vstd::arithmetic::power2::pow2((TWO_ADICITY - k) as nat);
    let c = vstd::arithmetic::power2::pow2(k);
    lemma_generator_order();
    lemma_pow_mod_noop(pow(G as int, a), c, modulus());
    lemma_pow_multiplies(G as int, a, c);
    vstd::arithmetic::power2::lemma_pow2_adds((TWO_ADICITY - k) as nat, k);
    assert((TWO_ADICITY - k) as nat + k == TWO_ADICITY as nat);
}

/// Returns the root of unity of order `order`, which must be a power of two not larger than
/// 2^40: G raised to 2^40 / `order`.
pub fn get_root_of_unity(order: usize) -> (r: u128)
    requires
        exists|k: nat| k <= TWO_ADICITY && vstd::arithmetic::power2::pow2(k) == order,
    ensures
        forall|k: nat| k <= TWO_ADICITY && vstd::arithmetic::power2::pow2(k) == order ==> r == root_of_unity(k),
        r == root_of_order(order as nat),
        r < MODULUS,
        f_exp(r as int, order as nat) == 1,
{
    let ghost k = choose|k: nat| k <= TWO_ADICITY && vstd::arithmetic::power2::pow2(k) == order;
    // find the base-2 logarithm of the order
    let mut log: u32 = 0;
    let mut o: usize = order;
    proof {
        vstd::arithmetic::power2::lemma2_to64();
        vstd::arithmetic::power2::lemma_pow2_pos(k);
    }
    while o > 1
        invariant
            log <= k,
            k <= TWO_ADICITY,
            o * vstd::arithmetic::power2::pow2(log as nat) == vstd::arithmetic::power2::pow2(k),
            o >= 1,
        decreases o,
    {
        proof {
            lemma_pow2_split(k, log as nat, o as nat);
        }
        o = o / 2;
        log = log + 1;
    }
    // the exponent 2^(40 - log)
    let mut p: u128 = 1;
    let mut i: u32 = 0;
    while i < TWO_ADICITY - log
        invariant
            i <= TWO_ADICITY - log,
            log <= TWO_ADICITY,
            p == vstd::arithmetic::power2::pow2(i as nat),
            p <= 0x100_0000_0000,
        decreases TWO_ADICITY - log - i,
    {
        proof {
            vstd::arithmetic::power2::lemma_pow2_unfold((i + 1) as nat);
            vstd::arithmetic::power2::lemma2_to64();
            vstd::arithmetic::power2::lemma2_to64_rest();
            if i + 1 < 40 {
                vstd::arithmetic::power2::lemma_pow2_strictly_increases((i + 1) as nat, 40);
            }
        }
        p = p * 2;
        i = i + 1;
    }
    proof {
        assert(log == k) by {
            assert(o == 1);
            lemma_pow2_injective(log as nat, k);
        }
        assert forall|k2: nat| k2 <= TWO_ADICITY && vstd::arithmetic::power2::pow2(k2) == order implies k2 == k by {
            lemma_pow2_injective(k2, k);
        }
        lemma_root_of_unity_order(k);
    }
    exp(G, p)
}

proof fn lemma_pow2_split(k: nat, log: nat, o: nat)
    requires
        o > 1,
        o * vstd::arithmetic::power2::pow2(log) == vstd::arithmetic::power2::pow2(k),
        log <= k,
    ensures
        o % 2 == 0,
        (o / 2) * vstd::arithmetic::power2::pow2(log + 1) == vstd::arithmetic::power2::pow2(k),
        log + 1 <= k,
{
    vstd::arithmetic::power2::lemma_pow2_pos(log);
    vstd::arithmetic::power2::lemma_pow2_unfold(log + 1);
    if log == k {
        assert(o * vstd::arithmetic::power2::pow2(log) > vstd::arithmetic::power2::pow2(k)) by (nonlinear_arith)
            requires o > 1, vstd::arithmetic::power2::pow2(log) > 0, log == k;
    }
    // 2^k / 2^log = 2^(k - log) is even since k > log
    vstd::arithmetic::power2::lemma_pow2_adds(log, (k - log) as nat);
    let q = vstd::arithmetic::power2::pow2((k - log) as nat);
    assert(o == q) by (nonlinear_arith)
        requires
            o * vstd::arithmetic::power2::pow2(log) == vstd::arithmetic::power2::pow2(log) * q,
            vstd::arithmetic::power2::pow2(log) > 0;
    vstd::arithmetic::power2::lemma_pow2_unfold((k - log) as nat);
    assert(o % 2 == 0);
    assert((o / 2) * (vstd::arithmetic::power2::pow2(log) * 2) == o * vstd::arithmetic::power2::pow2(log)) by (nonlinear_arith)
        requires o % 2 == 0;
}

proof fn lemma_pow2_injective(a: nat, b: nat)
    requires
        vstd::arithmetic::power2::pow2(a) == vstd::arithmetic::power2::pow2(b),
    ensures
        a == b,
{
    if a < b {
        vstd::arithmetic::power2::lemma_pow2_strictly_increases(a, b);
    } else if b < a {
        vstd::arithmetic::power2::lemma_pow2_strictly_increases(b, a);
    }
}

// FIELD LAWS
// ================================================================================================

/// Addition and multiplication of the field commute, one is the multiplicative identity,
/// subtraction undoes addition, and an element plus its negation is zero.
pub proof fn lemma_field_laws(a: u128, b: u128)
    requires
        a < MODULUS,
        b < MODULUS,
    ensures
        f_add(a as int, b as int) == f_add(b as int, a as int),
        f_mul(a as int, b as int) == f_mul(b as int, a as int),
        f_mul(a as int, 1) == a,
        f_sub(f_add(a as int, b as int), b as int) == a,
        f_add(a as int, f_neg(a as int)) == 0,
{
    let m = modulus();
    assert(a as int * b as int == b as int * a as int) by (nonlinear_arith);
    assert(a as int * 1 == a as int);
    lemma_small_mod(a as nat, m as nat);
    let x = a as int + b as int;
    vstd::arithmetic::div_mod::lemma_sub_mod_noop(x, b as int, m);
    vstd::arithmetic::div_mod::lemma_sub_mod_noop_right(x % m, b as int, m);
    assert(x - b == a);
    vstd::arithmetic::div_mod::lemma_add_mod_noop_right(a as int, 0 - a as int, m);
    assert(a as int + (0 - a as int) == 0);
    lemma_small_mod(0, m as nat);
}

} // verus!
