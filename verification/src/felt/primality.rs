//! The modulus of the field is a prime number, so every residue but zero has
//! an inverse.

use crate::felt::big::invertible;
use crate::felt::prime;
use vstd::arithmetic::div_mod::*;
use vstd::arithmetic::mul::*;
use vstd::arithmetic::power::*;
use vstd::arithmetic::power2::*;
use vstd::prelude::*;
use vstd::relations::injective_on;
use vstd::set_lib::*;

verus! {

/// A residue whose square, taken 191 times over, is `-1` modulo the prime: a
/// power of 3 of order `2^192` in the multiplicative group.
pub open spec fn witness() -> int {
    0x5282db87529cfa3f0464519c8b0fa5ad187148e11a61616070024f42f8ef94int
}

/// One squaring: where `c^(2^k)` is `x` modulo the prime and `x * x` is `y`,
/// `c^(2^(k + 1))` is `y`.
pub proof fn lemma_squared(c: int, k: nat, x: int, y: int)
    requires
        pow(c, pow2(k)) % (prime() as int) == x,
        (x * x) % (prime() as int) == y,
    ensures
        pow(c, pow2(k + 1)) % (prime() as int) == y,
{
    let n = prime() as int;
    let z = pow(c, pow2(k));
    lemma_pow2_unfold(k + 1);
    assert(pow2(k + 1) == pow2(k) + pow2(k));
    lemma_pow_adds(c, pow2(k), pow2(k));
    lemma_mul_mod_noop_general(z, z, n);
}

/// The squarings that take the exponent of the witness from `2^0` to
/// `2^16`.
pub proof fn lemma_squarings_0()
    requires
        pow(witness(), pow2(0)) % (prime() as int)
            == 0x5282db87529cfa3f0464519c8b0fa5ad187148e11a61616070024f42f8ef94int,
    ensures
        pow(witness(), pow2(16)) % (prime() as int)
            == 0x4b9cb49b478c12a88ed5b7b848605cfd0744ddc522944901181eb951524ad8cint,
{
    lemma_squared(
        witness(),
        0,
        0x5282db87529cfa3f0464519c8b0fa5ad187148e11a61616070024f42f8ef94int,
        0xe0a5eb0a4995b37e2ab5fe2fad6e9ce43272dfda828f000fc5b93404173760int,
    );
    lemma_squared(
        witness(),
        1,
        0xe0a5eb0a4995b37e2ab5fe2fad6e9ce43272dfda828f000fc5b93404173760int,
        0x5ac1ff12884c2d7f68488ddee5be5b657e36f459476eb5d567be37f09dc6b5cint,
    );
    lemma_squared(
        witness(),
        2,
        0x5ac1ff12884c2d7f68488ddee5be5b657e36f459476eb5d567be37f09dc6b5cint,
        0x727b76a09563089053924d54bf6c31631c57cb6a2a1a8f22c8ed622c3bb6a8fint,
    );
    lemma_squared(
        witness(),
        3,
        0x727b76a09563089053924d54bf6c31631c57cb6a2a1a8f22c8ed622c3bb6a8fint,
        0x7709cc3f421a10d914017ea2f0c24719ca9d2692beb71a6e040769692f8ac25int,
    );
    lemma_squared(
        witness(),
        4,
        0x7709cc3f421a10d914017ea2f0c24719ca9d2692beb71a6e040769692f8ac25int,
        0x367f3841b487ae5108205191425ad9817e693462b58f45e767a1747b49b3a0aint,
    );
    lemma_squared(
        witness(),
        5,
        0x367f3841b487ae5108205191425ad9817e693462b58f45e767a1747b49b3a0aint,
        0x61e359f379293ae0323845f87689930c777629391e2ede1d9446736bc46b8b4int,
    );
    lemma_squared(
        witness(),
        6,
        0x61e359f379293ae0323845f87689930c777629391e2ede1d9446736bc46b8b4int,
        0x520c2d37e3f1e78c6185d3a0ab93ba14d44cff8db576ebc4b44764ed4ee8cf7int,
    );
    lemma_squared(
        witness(),
        7,
        0x520c2d37e3f1e78c6185d3a0ab93ba14d44cff8db576ebc4b44764ed4ee8cf7int,
        0x22f575e112a2c4d946813e30f331903ef2990c6729d40e2123e992e31d48a82int,
    );
    lemma_squared(
        witness(),
        8,
        0x22f575e112a2c4d946813e30f331903ef2990c6729d40e2123e992e31d48a82int,
        0x230b5c3d3f093925027e7d944793049f381ebbdbf87d840e4fa93cb9302ac44int,
    );
    lemma_squared(
        witness(),
        9,
        0x230b5c3d3f093925027e7d944793049f381ebbdbf87d840e4fa93cb9302ac44int,
        0x7586d27b19255098be0ca5f918f0105924e189c653705209465d77c65375f6cint,
    );
    lemma_squared(
        witness(),
        10,
        0x7586d27b19255098be0ca5f918f0105924e189c653705209465d77c65375f6cint,
        0x21dab447c48649aabcf2825aabe912be6406a78823ddf07191a2ea9cf287fafint,
    );
    lemma_squared(
        witness(),
        11,
        0x21dab447c48649aabcf2825aabe912be6406a78823ddf07191a2ea9cf287fafint,
        0x26064139b92e036e3f5c599bbc94c16778ba471a45d785f664252897cc1083dint,
    );
    lemma_squared(
        witness(),
        12,
        0x26064139b92e036e3f5c599bbc94c16778ba471a45d785f664252897cc1083dint,
        0x31531c6965c0cc47bf5af5390db4c797463b3f37e80093aad6794f2b94bc10eint,
    );
    lemma_squared(
        witness(),
        13,
        0x31531c6965c0cc47bf5af5390db4c797463b3f37e80093aad6794f2b94bc10eint,
        0x2bc8b3028ec2dda77d60416fa86658a1f3c8f9650425ae8bc5915ae98c8db7fint,
    );
    lemma_squared(
        witness(),
        14,
        0x2bc8b3028ec2dda77d60416fa86658a1f3c8f9650425ae8bc5915ae98c8db7fint,
        0x38e3b071e369b4f6fa736a5d498e3373efa8faeed5c136198cb241127105daeint,
    );
    lemma_squared(
        witness(),
        15,
        0x38e3b071e369b4f6fa736a5d498e3373efa8faeed5c136198cb241127105daeint,
        0x4b9cb49b478c12a88ed5b7b848605cfd0744ddc522944901181eb951524ad8cint,
    );
}

/// The squarings that take the exponent of the witness from `2^16` to
/// `2^32`.
pub proof fn lemma_squarings_16()
    requires
        pow(witness(), pow2(16)) % (prime() as int)
            == 0x4b9cb49b478c12a88ed5b7b848605cfd0744ddc522944901181eb951524ad8cint,
    ensures
        pow(witness(), pow2(32)) % (prime() as int)
            == 0x4f4fae1524c29441dbfd6794692f803ddcf6d66be90d67e9412a9f3df1d9004int,
{
    lemma_squared(
        witness(),
        16,
        0x4b9cb49b478c12a88ed5b7b848605cfd0744ddc522944901181eb951524ad8cint,
        0x2708b052ff2ca5046d6fe3ce111d6ce5a337909375dc2407a5b3e7079bc6c86int,
    );
    lemma_squared(
        witness(),
        17,
        0x2708b052ff2ca5046d6fe3ce111d6ce5a337909375dc2407a5b3e7079bc6c86int,
        0x68b3aaf00a4483b1a12a4257f01c5385127a167f0c137cd9513e0d4dd756b6dint,
    );
    lemma_squared(
        witness(),
        18,
        0x68b3aaf00a4483b1a12a4257f01c5385127a167f0c137cd9513e0d4dd756b6dint,
        0x605f6a2ae0874e2c25b262fb99395f44234afd0c2069cba6c72bd401f4f0e85int,
    );
    lemma_squared(
        witness(),
        19,
        0x605f6a2ae0874e2c25b262fb99395f44234afd0c2069cba6c72bd401f4f0e85int,
        0x3745ca5cc625a0b10b1b3db9be0aef564f4bbd26f29053dc04dc48c005a1d86int,
    );
    lemma_squared(
        witness(),
        20,
        0x3745ca5cc625a0b10b1b3db9be0aef564f4bbd26f29053dc04dc48c005a1d86int,
        0x3ddeed6ea43d59b7de04ce2d8febe775be86512856a1aefe378a012135e0ee9int,
    );
    lemma_squared(
        witness(),
        21,
        0x3ddeed6ea43d59b7de04ce2d8febe775be86512856a1aefe378a012135e0ee9int,
        0x6a550dfc8c22dd8e5e4a16b727e74b5d94f928d5d407ae80fbfd336edeaec42int,
    );
    lemma_squared(
        witness(),
        22,
        0x6a550dfc8c22dd8e5e4a16b727e74b5d94f928d5d407ae80fbfd336edeaec42int,
        0xd109f294d2adea8bd91c558d4220dbb658c8c4e26b66b3ded3bc578b98bf40int,
    );
    lemma_squared(
        witness(),
        23,
        0xd109f294d2adea8bd91c558d4220dbb658c8c4e26b66b3ded3bc578b98bf40int,
        0x247ecf52fe8be1fa8114ab3c94862af5a6b430dec205dcdbff2f4e60cc5cbf4int,
    );
    lemma_squared(
        witness(),
        24,
        0x247ecf52fe8be1fa8114ab3c94862af5a6b430dec205dcdbff2f4e60cc5cbf4int,
        0xe34b3355ee9d49575950f37d1e82a86401b6d3cd08787a3a66ad86f976eb41int,
    );
    lemma_squared(
        witness(),
        25,
        0xe34b3355ee9d49575950f37d1e82a86401b6d3cd08787a3a66ad86f976eb41int,
        0x5fb76bed5d75a88214d3134d01f3de968cd3f7a0173185873f8a435e404f6c5int,
    );
    lemma_squared(
        witness(),
        26,
        0x5fb76bed5d75a88214d3134d01f3de968cd3f7a0173185873f8a435e404f6c5int,
        0x56db454a93340f5acba1990670f5d4e0f02915519dadcabbbafb3f6d8408a5int,
    );
    lemma_squared(
        witness(),
        27,
        0x56db454a93340f5acba1990670f5d4e0f02915519dadcabbbafb3f6d8408a5int,
        0x7ce12e47503ddc334ca7cb60795844b7ee777e1736a1659e70206135bd84f3eint,
    );
    lemma_squared(
        witness(),
        28,
        0x7ce12e47503ddc334ca7cb60795844b7ee777e1736a1659e70206135bd84f3eint,
        0xf4804c8e8b80825b24913bf17eb8d7b7cb0619f5952362ef7660f933f928b7int,
    );
    lemma_squared(
        witness(),
        29,
        0xf4804c8e8b80825b24913bf17eb8d7b7cb0619f5952362ef7660f933f928b7int,
        0x4e3bf4420275950191382578f8530f2352eab2a421182c9e382756459824907int,
    );
    lemma_squared(
        witness(),
        30,
        0x4e3bf4420275950191382578f8530f2352eab2a421182c9e382756459824907int,
        0x554f72a851739e0f74544f484883580f8a339cf887fd7e9d413afdf5707d134int,
    );
    lemma_squared(
        witness(),
        31,
        0x554f72a851739e0f74544f484883580f8a339cf887fd7e9d413afdf5707d134int,
        0x4f4fae1524c29441dbfd6794692f803ddcf6d66be90d67e9412a9f3df1d9004int,
    );
}

/// The squarings that take the exponent of the witness from `2^32` to
/// `2^48`.
pub proof fn lemma_squarings_32()
    requires
        pow(witness(), pow2(32)) % (prime() as int)
            == 0x4f4fae1524c29441dbfd6794692f803ddcf6d66be90d67e9412a9f3df1d9004int,
    ensures
        pow(witness(), pow2(48)) % (prime() as int)
            == 0x5cc1cc672a31ef19372af4e145cef8c5ee3ac6f3d52698169b8f4dfcbd4ba67int,
{
    lemma_squared(
        witness(),
        32,
        0x4f4fae1524c29441dbfd6794692f803ddcf6d66be90d67e9412a9f3df1d9004int,
        0x7f5f8017989c8fdbb172d28ca71e55107dbe55709f8e2fcb653c919e49749c9int,
    );
    lemma_squared(
        witness(),
        33,
        0x7f5f8017989c8fdbb172d28ca71e55107dbe55709f8e2fcb653c919e49749c9int,
        0x4100303baee9a5842724e80dc3ed49ec0b192bec08b1798d3bd98334c264e97int,
    );
    lemma_squared(
        witness(),
        34,
        0x4100303baee9a5842724e80dc3ed49ec0b192bec08b1798d3bd98334c264e97int,
        0x1df4a811feca6510bcf423c95272d01bafe9a1cf805fedfb085758e34fc5356int,
    );
    lemma_squared(
        witness(),
        35,
        0x1df4a811feca6510bcf423c95272d01bafe9a1cf805fedfb085758e34fc5356int,
        0x2f187e162cfacb26b399ae073edc56f2d84c4c208f1b99b30e067ccab76a462int,
    );
    lemma_squared(
        witness(),
        36,
        0x2f187e162cfacb26b399ae073edc56f2d84c4c208f1b99b30e067ccab76a462int,
        0x1b3031446d8156a9ba50868dd68405541ff4e1eac57ece3f9c1e3a3da25c9fdint,
    );
    lemma_squared(
        witness(),
        37,
        0x1b3031446d8156a9ba50868dd68405541ff4e1eac57ece3f9c1e3a3da25c9fdint,
        0x3e0ddb6a81dbffa20b04218bfadddd31edf6a8360cf9603fabab7b8e2ddaacdint,
    );
    lemma_squared(
        witness(),
        38,
        0x3e0ddb6a81dbffa20b04218bfadddd31edf6a8360cf9603fabab7b8e2ddaacdint,
        0x22a91cea99c704d27da5fbfa2a910a814634b999fa37e684adb59475585a6f0int,
    );
    lemma_squared(
        witness(),
        39,
        0x22a91cea99c704d27da5fbfa2a910a814634b999fa37e684adb59475585a6f0int,
        0x51dbe40b55b06ccba80ffda2ae70678be651dd1cf739179cfe50d9005903be3int,
    );
    lemma_squared(
        witness(),
        40,
        0x51dbe40b55b06ccba80ffda2ae70678be651dd1cf739179cfe50d9005903be3int,
        0x693e89afa69f0ec576adf96c3a87a889bd7746501d6ee0552d7a9a28866c747int,
    );
    lemma_squared(
        witness(),
        41,
        0x693e89afa69f0ec576adf96c3a87a889bd7746501d6ee0552d7a9a28866c747int,
        0xd514fc5fd97ea169c1bfcf8ec507265586addb293ad856c002185cc993b168int,
    );
    lemma_squared(
        witness(),
        42,
        0xd514fc5fd97ea169c1bfcf8ec507265586addb293ad856c002185cc993b168int,
        0x15c5f15022748d28af5a7b79bcbfb57f77e35ad33d0fa70e24b552892d52444int,
    );
    lemma_squared(
        witness(),
        43,
        0x15c5f15022748d28af5a7b79bcbfb57f77e35ad33d0fa70e24b552892d52444int,
        0x78679d63a3ecc280b51a085e58e209451f02e33e2e116095604b398a7dae551int,
    );
    lemma_squared(
        witness(),
        44,
        0x78679d63a3ecc280b51a085e58e209451f02e33e2e116095604b398a7dae551int,
        0x53097d8687ba365b60c1f9388b6ecda283122287b18a9d00a1e223e324c6039int,
    );
    lemma_squared(
        witness(),
        45,
        0x53097d8687ba365b60c1f9388b6ecda283122287b18a9d00a1e223e324c6039int,
        0x4ba49f25455acc3a7a2067eaf1bea485824a28560f8f9da8fa8385074d51c41int,
    );
    lemma_squared(
        witness(),
        46,
        0x4ba49f25455acc3a7a2067eaf1bea485824a28560f8f9da8fa8385074d51c41int,
        0x24cfa5880eb8d60c68233b14395b70d86ba0504ee3fa47ece898b0d62d1ba57int,
    );
    lemma_squared(
        witness(),
        47,
        0x24cfa5880eb8d60c68233b14395b70d86ba0504ee3fa47ece898b0d62d1ba57int,
        0x5cc1cc672a31ef19372af4e145cef8c5ee3ac6f3d52698169b8f4dfcbd4ba67int,
    );
}

/// The squarings that take the exponent of the witness from `2^48` to
/// `2^64`.
pub proof fn lemma_squarings_48()
    requires
        pow(witness(), pow2(48)) % (prime() as int)
            == 0x5cc1cc672a31ef19372af4e145cef8c5ee3ac6f3d52698169b8f4dfcbd4ba67int,
    ensures
        pow(witness(), pow2(64)) % (prime() as int)
            == 0x56c235baead3486249b2a4a489481f05ae32099ff8786899c46a0d82ccc89aint,
{
    lemma_squared(
        witness(),
        48,
        0x5cc1cc672a31ef19372af4e145cef8c5ee3ac6f3d52698169b8f4dfcbd4ba67int,
        0xf7af27641b3f3d746ded71bfb061d6b4cbecb77f25beea82a941c973a220ecint,
    );
    lemma_squared(
        witness(),
        49,
        0xf7af27641b3f3d746ded71bfb061d6b4cbecb77f25beea82a941c973a220ecint,
        0x2b3732472327da653f3c5738dd76882e86db2fb81648127908e645057e7aeedint,
    );
    lemma_squared(
        witness(),
        50,
        0x2b3732472327da653f3c5738dd76882e86db2fb81648127908e645057e7aeedint,
        0x7b9da96c5a7950576f427264afab47a7f3e3f90a6b0481cdb259a579f47496fint,
    );
    lemma_squared(
        witness(),
        51,
        0x7b9da96c5a7950576f427264afab47a7f3e3f90a6b0481cdb259a579f47496fint,
        0x794ed388971b70e27a7ffeb9e9462dc616a47d66aa9c29a3ca61d9e046b49b2int,
    );
    lemma_squared(
        witness(),
        52,
        0x794ed388971b70e27a7ffeb9e9462dc616a47d66aa9c29a3ca61d9e046b49b2int,
        0x6321b515f80f9920c911679ba6a027da5eb368f06fbef31d958e7261d4c3fecint,
    );
    lemma_squared(
        witness(),
        53,
        0x6321b515f80f9920c911679ba6a027da5eb368f06fbef31d958e7261d4c3fecint,
        0x7ea9749876bd8c7c89f660e303b1f5ab24b664abafa937b8e9a6336df253531int,
    );
    lemma_squared(
        witness(),
        54,
        0x7ea9749876bd8c7c89f660e303b1f5ab24b664abafa937b8e9a6336df253531int,
        0x52eeb982865a07ef78f890e220db8d8ab92043c7e70f7de7a5bead4ecd4c6f7int,
    );
    lemma_squared(
        witness(),
        55,
        0x52eeb982865a07ef78f890e220db8d8ab92043c7e70f7de7a5bead4ecd4c6f7int,
        0x6309a6bc57feea2d228b1f9373f622223097a65768e2cb37ffa095dceb3dffdint,
    );
    lemma_squared(
        witness(),
        56,
        0x6309a6bc57feea2d228b1f9373f622223097a65768e2cb37ffa095dceb3dffdint,
        0x37c79f6a0992ed5836ffd8094db1b389feefa06d40b6d0f1f4047ca72a30547int,
    );
    lemma_squared(
        witness(),
        57,
        0x37c79f6a0992ed5836ffd8094db1b389feefa06d40b6d0f1f4047ca72a30547int,
        0x33dee7825ee51ffced58dd1d596cd51b3a834559493a6280eff7e6aecfb6f72int,
    );
    lemma_squared(
        witness(),
        58,
        0x33dee7825ee51ffced58dd1d596cd51b3a834559493a6280eff7e6aecfb6f72int,
        0x3152c1d4c3842dd703949ee1d0db22695db523fcdecebc92a87c37ab9975332int,
    );
    lemma_squared(
        witness(),
        59,
        0x3152c1d4c3842dd703949ee1d0db22695db523fcdecebc92a87c37ab9975332int,
        0xe1919f0c4bc4bebaa2335967f20d255a1787ba915c1c7047892f3b45aa1b58int,
    );
    lemma_squared(
        witness(),
        60,
        0xe1919f0c4bc4bebaa2335967f20d255a1787ba915c1c7047892f3b45aa1b58int,
        0x41d6351df0a61c1e78d6c8d6510630c3e0f503757bbca048964ee489ff51bc7int,
    );
    lemma_squared(
        witness(),
        61,
        0x41d6351df0a61c1e78d6c8d6510630c3e0f503757bbca048964ee489ff51bc7int,
        0xe94509d1e22f80dfaceff6d7264573386c232533eb6c0e164f0705acf14a4fint,
    );
    lemma_squared(
        witness(),
        62,
        0xe94509d1e22f80dfaceff6d7264573386c232533eb6c0e164f0705acf14a4fint,
        0x397b942bc3442eb1c3223aa5a250a06518db5cdc03af9765a0640f3ba0ea95eint,
    );
    lemma_squared(
        witness(),
        63,
        0x397b942bc3442eb1c3223aa5a250a06518db5cdc03af9765a0640f3ba0ea95eint,
        0x56c235baead3486249b2a4a489481f05ae32099ff8786899c46a0d82ccc89aint,
    );
}

/// The squarings that take the exponent of the witness from `2^64` to
/// `2^80`.
pub proof fn lemma_squarings_64()
    requires
        pow(witness(), pow2(64)) % (prime() as int)
            == 0x56c235baead3486249b2a4a489481f05ae32099ff8786899c46a0d82ccc89aint,
    ensures
        pow(witness(), pow2(80)) % (prime() as int)
            == 0x42c8871ea85f2ecbcba6ac1bdb3834a4e2e298fa484586841d351cd9065f8eeint,
{
    lemma_squared(
        witness(),
        64,
        0x56c235baead3486249b2a4a489481f05ae32099ff8786899c46a0d82ccc89aint,
        0x5ac9917c7afafca64c137b0e338258ebff4af42aff370fd3b5a874072ef3623int,
    );
    lemma_squared(
        witness(),
        65,
        0x5ac9917c7afafca64c137b0e338258ebff4af42aff370fd3b5a874072ef3623int,
        0x58fb800a320eca270b7ee88d5142cff73b4f714487e93c98fd405b2c520e3eaint,
    );
    lemma_squared(
        witness(),
        66,
        0x58fb800a320eca270b7ee88d5142cff73b4f714487e93c98fd405b2c520e3eaint,
        0x367a3c7073c48b4893b09160b21ca7e6190d3f60fef654e07eda692e4b19319int,
    );
    lemma_squared(
        witness(),
        67,
        0x367a3c7073c48b4893b09160b21ca7e6190d3f60fef654e07eda692e4b19319int,
        0x419cb7f7f7738114c64d050d7d21267f191fd60374be67a1da52b0aba4060aint,
    );
    lemma_squared(
        witness(),
        68,
        0x419cb7f7f7738114c64d050d7d21267f191fd60374be67a1da52b0aba4060aint,
        0x63039de3f8123775b2fa771cfe9651528fd23fd2a9c6282270aa33a3b50645aint,
    );
    lemma_squared(
        witness(),
        69,
        0x63039de3f8123775b2fa771cfe9651528fd23fd2a9c6282270aa33a3b50645aint,
        0x46de7bc8594b9246c646fe83be009f94ebe5506682ee17cba523265324228d8int,
    );
    lemma_squared(
        witness(),
        70,
        0x46de7bc8594b9246c646fe83be009f94ebe5506682ee17cba523265324228d8int,
        0x2173582bc7171c7782f8b8e9f2008c937c1e6e10b6a1216c80848fd48e9b00int,
    );
    lemma_squared(
        witness(),
        71,
        0x2173582bc7171c7782f8b8e9f2008c937c1e6e10b6a1216c80848fd48e9b00int,
        0x4b4757de1261bff7bd468872e4228034dcf39325d4233b0de558d1613ee028cint,
    );
    lemma_squared(
        witness(),
        72,
        0x4b4757de1261bff7bd468872e4228034dcf39325d4233b0de558d1613ee028cint,
        0x33b74dd5c6620aaf28c83c99c0eea09b1cab3419049fd2d9604491931d9587eint,
    );
    lemma_squared(
        witness(),
        73,
        0x33b74dd5c6620aaf28c83c99c0eea09b1cab3419049fd2d9604491931d9587eint,
        0x7986feaa4074faf4163a40136f0f7914c11ef2660e0b0c87b48a33beb0faad4int,
    );
    lemma_squared(
        witness(),
        74,
        0x7986feaa4074faf4163a40136f0f7914c11ef2660e0b0c87b48a33beb0faad4int,
        0x886d2382e8fa75bbc12961947a00fdd7322ee9d24690f489b394f74decc603int,
    );
    lemma_squared(
        witness(),
        75,
        0x886d2382e8fa75bbc12961947a00fdd7322ee9d24690f489b394f74decc603int,
        0x16b03c927c81bdd10d4a8d04f0bb72739d57dd675cfaa7ee42676b09583f023int,
    );
    lemma_squared(
        witness(),
        76,
        0x16b03c927c81bdd10d4a8d04f0bb72739d57dd675cfaa7ee42676b09583f023int,
        0x8cd288bed4677427e6570a0f7e3e6be380dee704eac3cfd35f3e32a95e3cbfint,
    );
    lemma_squared(
        witness(),
        77,
        0x8cd288bed4677427e6570a0f7e3e6be380dee704eac3cfd35f3e32a95e3cbfint,
        0x53b143cb298587d09716ad9d2c2590d2e4aea228cfd772f3a6299bd21bd655aint,
    );
    lemma_squared(
        witness(),
        78,
        0x53b143cb298587d09716ad9d2c2590d2e4aea228cfd772f3a6299bd21bd655aint,
        0x4d12da8f698dd8f2c55534386839de74f0f9dc426fc2d5cc4dc0d201fda880fint,
    );
    lemma_squared(
        witness(),
        79,
        0x4d12da8f698dd8f2c55534386839de74f0f9dc426fc2d5cc4dc0d201fda880fint,
        0x42c8871ea85f2ecbcba6ac1bdb3834a4e2e298fa484586841d351cd9065f8eeint,
    );
}

/// The squarings that take the exponent of the witness from `2^80` to
/// `2^96`.
pub proof fn lemma_squarings_80()
    requires
        pow(witness(), pow2(80)) % (prime() as int)
            == 0x42c8871ea85f2ecbcba6ac1bdb3834a4e2e298fa484586841d351cd9065f8eeint,
    ensures
        pow(witness(), pow2(96)) % (prime() as int)
            == 0x19fa1f95266715130d97769c946ab30040470c480339f392810d2b47dac5d19int,
{
    lemma_squared(
        witness(),
        80,
        0x42c8871ea85f2ecbcba6ac1bdb3834a4e2e298fa484586841d351cd9065f8eeint,
        0x4159becba288c0bef00dfa97c13e14560e6c3629ed293403cde2cdda828431eint,
    );
    lemma_squared(
        witness(),
        81,
        0x4159becba288c0bef00dfa97c13e14560e6c3629ed293403cde2cdda828431eint,
        0xa8a188329f6855437c2fda73696a28da7456d290b17b01dcadfd2955205413int,
    );
    lemma_squared(
        witness(),
        82,
        0xa8a188329f6855437c2fda73696a28da7456d290b17b01dcadfd2955205413int,
        0x25a425bcac574963eb8c3a0e4df06d84a959d5003821aa870b8043288740c3eint,
    );
    lemma_squared(
        witness(),
        83,
        0x25a425bcac574963eb8c3a0e4df06d84a959d5003821aa870b8043288740c3eint,
        0x74ffc4d220fc7db571dbdb926e5d4354cf688cf5ac103a0cbadd8ada5c0dca4int,
    );
    lemma_squared(
        witness(),
        84,
        0x74ffc4d220fc7db571dbdb926e5d4354cf688cf5ac103a0cbadd8ada5c0dca4int,
        0x5d92ab7822107546e6eef0404badff62ca03fcb86946633c3eebe54443af109int,
    );
    lemma_squared(
        witness(),
        85,
        0x5d92ab7822107546e6eef0404badff62ca03fcb86946633c3eebe54443af109int,
        0x50c8e5c3e50dfed7db961b024a4096ed5930255d99f7159962ceb6b1a264ab3int,
    );
    lemma_squared(
        witness(),
        86,
        0x50c8e5c3e50dfed7db961b024a4096ed5930255d99f7159962ceb6b1a264ab3int,
        0x6bd0cde316cc0d39a112816deb0740d4f17674dc55f4455b2b074aeb3b67067int,
    );
    lemma_squared(
        witness(),
        87,
        0x6bd0cde316cc0d39a112816deb0740d4f17674dc55f4455b2b074aeb3b67067int,
        0x7913b17c60939127aa46ad086b82de771329f695f3fb72adb150649bea42f88int,
    );
    lemma_squared(
        witness(),
        88,
        0x7913b17c60939127aa46ad086b82de771329f695f3fb72adb150649bea42f88int,
        0x4bef156ed7788c133e089caa12773f25a2e6ea2c78f7dac1fbc42a3358cfcc2int,
    );
    lemma_squared(
        witness(),
        89,
        0x4bef156ed7788c133e089caa12773f25a2e6ea2c78f7dac1fbc42a3358cfcc2int,
        0x10d235f41cf0a6b5d0e7af09fbda5e344370686cf0e1b883c3407a5b11706c9int,
    );
    lemma_squared(
        witness(),
        90,
        0x10d235f41cf0a6b5d0e7af09fbda5e344370686cf0e1b883c3407a5b11706c9int,
        0xc962b1e5dd28e0e9aa6d504f6267c727cea5605ee6eb03af24ead266d7eb25int,
    );
    lemma_squared(
        witness(),
        91,
        0xc962b1e5dd28e0e9aa6d504f6267c727cea5605ee6eb03af24ead266d7eb25int,
        0x36026557e531b52198de3470c8661cb0c37dca27bbe087de1462ca639759f39int,
    );
    lemma_squared(
        witness(),
        92,
        0x36026557e531b52198de3470c8661cb0c37dca27bbe087de1462ca639759f39int,
        0x5f950ad12450edbc0746a1dcb004b32cdd8f78093a5a7ffebd2a8b6be27786int,
    );
    lemma_squared(
        witness(),
        93,
        0x5f950ad12450edbc0746a1dcb004b32cdd8f78093a5a7ffebd2a8b6be27786int,
        0x6680f09add19a7d439bdda4e080e2ec6831da1df132ce21a848b2f255e39071int,
    );
    lemma_squared(
        witness(),
        94,
        0x6680f09add19a7d439bdda4e080e2ec6831da1df132ce21a848b2f255e39071int,
        0x4c3a3a1cf78c5796af2b76d08451e3595490ca02a0fb7bd00e13c8e5e7c57a2int,
    );
    lemma_squared(
        witness(),
        95,
        0x4c3a3a1cf78c5796af2b76d08451e3595490ca02a0fb7bd00e13c8e5e7c57a2int,
        0x19fa1f95266715130d97769c946ab30040470c480339f392810d2b47dac5d19int,
    );
}

/// The squarings that take the exponent of the witness from `2^96` to
/// `2^112`.
pub proof fn lemma_squarings_96()
    requires
        pow(witness(), pow2(96)) % (prime() as int)
            == 0x19fa1f95266715130d97769c946ab30040470c480339f392810d2b47dac5d19int,
    ensures
        pow(witness(), pow2(112)) % (prime() as int)
            == 0x6263e1e108eec6a19935b68cc9d9b24d43bcf85471f947e12680395c2ba0f23int,
{
    lemma_squared(
        witness(),
        96,
        0x19fa1f95266715130d97769c946ab30040470c480339f392810d2b47dac5d19int,
        0x7a8faa16660a91230b003fd0c597ea738ec0386049c46e27f5c626d87086e50int,
    );
    lemma_squared(
        witness(),
        97,
        0x7a8faa16660a91230b003fd0c597ea738ec0386049c46e27f5c626d87086e50int,
        0x240fc41f63c32ab8b51336fa9bed4f51540cf671c841a894ef9fe941c5a4861int,
    );
    lemma_squared(
        witness(),
        98,
        0x240fc41f63c32ab8b51336fa9bed4f51540cf671c841a894ef9fe941c5a4861int,
        0xf1a46e52e5da6d359ddb459767a44a7a969b6235d2dfb668886b35b2bfa1adint,
    );
    lemma_squared(
        witness(),
        99,
        0xf1a46e52e5da6d359ddb459767a44a7a969b6235d2dfb668886b35b2bfa1adint,
        0x5e88acbfdd73a36a2bd1d0671a0cdd222c99c9f5eac45882413e92cd772d637int,
    );
    lemma_squared(
        witness(),
        100,
        0x5e88acbfdd73a36a2bd1d0671a0cdd222c99c9f5eac45882413e92cd772d637int,
        0x1775d669ad23eac9491173a78d7b607a258cfc7dbe5763de43439f14fa405aaint,
    );
    lemma_squared(
        witness(),
        101,
        0x1775d669ad23eac9491173a78d7b607a258cfc7dbe5763de43439f14fa405aaint,
        0x6159e4a939b3ef32d89a7778091a28733cd57255d940684ea8cbefdd455f483int,
    );
    lemma_squared(
        witness(),
        102,
        0x6159e4a939b3ef32d89a7778091a28733cd57255d940684ea8cbefdd455f483int,
        0x156d837457eabd3354e3bf711c1d565d4f52ed24664959b7f2e2048c608d246int,
    );
    lemma_squared(
        witness(),
        103,
        0x156d837457eabd3354e3bf711c1d565d4f52ed24664959b7f2e2048c608d246int,
        0x3761a4f5990b523acda84182a069b18d04f1eebbfee24ac4c69edd957269216int,
    );
    lemma_squared(
        witness(),
        104,
        0x3761a4f5990b523acda84182a069b18d04f1eebbfee24ac4c69edd957269216int,
        0x5b8acbcc282db6f4cc157b472328369db5a705f9fc63b7f6ace9477f4910a60int,
    );
    lemma_squared(
        witness(),
        105,
        0x5b8acbcc282db6f4cc157b472328369db5a705f9fc63b7f6ace9477f4910a60int,
        0x57e48762d9291a47df85fbbf428c4b94b92533d961f56adec982f608770a4beint,
    );
    lemma_squared(
        witness(),
        106,
        0x57e48762d9291a47df85fbbf428c4b94b92533d961f56adec982f608770a4beint,
        0x3b22830dbefe5e902102b55e7eed224d777abd5009b84dc384c5e8b91b88258int,
    );
    lemma_squared(
        witness(),
        107,
        0x3b22830dbefe5e902102b55e7eed224d777abd5009b84dc384c5e8b91b88258int,
        0x31261d0ab40d7e4700766e17117c44a37c4a361aa690d1f82d06d783a41158aint,
    );
    lemma_squared(
        witness(),
        108,
        0x31261d0ab40d7e4700766e17117c44a37c4a361aa690d1f82d06d783a41158aint,
        0x4b0b60385306d47ef09e227bc3ff5f7046910d3bcf85c7ec7cfc1f10bdb6ccint,
    );
    lemma_squared(
        witness(),
        109,
        0x4b0b60385306d47ef09e227bc3ff5f7046910d3bcf85c7ec7cfc1f10bdb6ccint,
        0x6917cab04838ba13f6903d77d71ca2f64c25a072f53041307a4b921312f9080int,
    );
    lemma_squared(
        witness(),
        110,
        0x6917cab04838ba13f6903d77d71ca2f64c25a072f53041307a4b921312f9080int,
        0x161444d63a080a007f123592544381e0ab73eefc55b1b6829617bad5b7be972int,
    );
    lemma_squared(
        witness(),
        111,
        0x161444d63a080a007f123592544381e0ab73eefc55b1b6829617bad5b7be972int,
        0x6263e1e108eec6a19935b68cc9d9b24d43bcf85471f947e12680395c2ba0f23int,
    );
}

/// The squarings that take the exponent of the witness from `2^112` to
/// `2^128`.
pub proof fn lemma_squarings_112()
    requires
        pow(witness(), pow2(112)) % (prime() as int)
            == 0x6263e1e108eec6a19935b68cc9d9b24d43bcf85471f947e12680395c2ba0f23int,
    ensures
        pow(witness(), pow2(128)) % (prime() as int)
            == 0x114a27896d1fe4c5be965ba8dd54dbe7d3eef8ba72b1f03b0a6628d72fb8b0dint,
{
    lemma_squared(
        witness(),
        112,
        0x6263e1e108eec6a19935b68cc9d9b24d43bcf85471f947e12680395c2ba0f23int,
        0x1c5ef1268c997228b8d87357b0de8803cac8839573b44d78cc1d845a86eec0cint,
    );
    lemma_squared(
        witness(),
        113,
        0x1c5ef1268c997228b8d87357b0de8803cac8839573b44d78cc1d845a86eec0cint,
        0x5dd79b04d0a367d234d8639dbea4a69bfddf5c559086db15e3197fcb79a92b1int,
    );
    lemma_squared(
        witness(),
        114,
        0x5dd79b04d0a367d234d8639dbea4a69bfddf5c559086db15e3197fcb79a92b1int,
        0x2259fe4059cb5f59e4dbd250edf7ead7e0dbb9f1b9f4119733e8df9dc50729int,
    );
    lemma_squared(
        witness(),
        115,
        0x2259fe4059cb5f59e4dbd250edf7ead7e0dbb9f1b9f4119733e8df9dc50729int,
        0x69d8f0ce28baf8aeeedaa59b8183a1dc5daaff481ebc11719cd1b4e1824b92cint,
    );
    lemma_squared(
        witness(),
        116,
        0x69d8f0ce28baf8aeeedaa59b8183a1dc5daaff481ebc11719cd1b4e1824b92cint,
        0x4f42d7f5d57bb23c1e326b312abaef5d0c3e0c67853b30dae703c5bcd9fedeeint,
    );
    lemma_squared(
        witness(),
        117,
        0x4f42d7f5d57bb23c1e326b312abaef5d0c3e0c67853b30dae703c5bcd9fedeeint,
        0x3d296b9c387a3b5103ec3c817343c48cacd65df92a880891fb24e5e23088fc7int,
    );
    lemma_squared(
        witness(),
        118,
        0x3d296b9c387a3b5103ec3c817343c48cacd65df92a880891fb24e5e23088fc7int,
        0x7acdde969bc866a8f4c1366fd6391750021a55ba96aeeab8ec7e11316334e1aint,
    );
    lemma_squared(
        witness(),
        119,
        0x7acdde969bc866a8f4c1366fd6391750021a55ba96aeeab8ec7e11316334e1aint,
        0x712858b12d620d861aab25e0d732fdbd3616cb157a1cdecb9d70015f246c901int,
    );
    lemma_squared(
        witness(),
        120,
        0x712858b12d620d861aab25e0d732fdbd3616cb157a1cdecb9d70015f246c901int,
        0x30762f8111f4192b174ad4623d95951709ca6c60430b01766d1942030408cb9int,
    );
    lemma_squared(
        witness(),
        121,
        0x30762f8111f4192b174ad4623d95951709ca6c60430b01766d1942030408cb9int,
        0xb974a1f64289f793bae6507c287f58011853d8318277e80c4e7c07f966d24eint,
    );
    lemma_squared(
        witness(),
        122,
        0xb974a1f64289f793bae6507c287f58011853d8318277e80c4e7c07f966d24eint,
        0x160e9529f3d7f85113b6071bb65576e6539ee52f5d787d2ef78ac4c062bd860int,
    );
    lemma_squared(
        witness(),
        123,
        0x160e9529f3d7f85113b6071bb65576e6539ee52f5d787d2ef78ac4c062bd860int,
        0x13336c10fc8b5226f8987e37b429f7100f4a1285fd9edca448fff073e257b43int,
    );
    lemma_squared(
        witness(),
        124,
        0x13336c10fc8b5226f8987e37b429f7100f4a1285fd9edca448fff073e257b43int,
        0x20a1b2f11cbcf62e9ab5d6ff94d9fcd408ae7db08ddfa23909aad7cc7bf8c3int,
    );
    lemma_squared(
        witness(),
        125,
        0x20a1b2f11cbcf62e9ab5d6ff94d9fcd408ae7db08ddfa23909aad7cc7bf8c3int,
        0x3c53bf5826df846ce51a153d0b370a19a58fd99771da991a1826724ed992efcint,
    );
    lemma_squared(
        witness(),
        126,
        0x3c53bf5826df846ce51a153d0b370a19a58fd99771da991a1826724ed992efcint,
        0x15f291ac9c0fea66ef2c68c44140d6ebf152353b9fa9dcc0256d8e606051d55int,
    );
    lemma_squared(
        witness(),
        127,
        0x15f291ac9c0fea66ef2c68c44140d6ebf152353b9fa9dcc0256d8e606051d55int,
        0x114a27896d1fe4c5be965ba8dd54dbe7d3eef8ba72b1f03b0a6628d72fb8b0dint,
    );
}

/// The squarings that take the exponent of the witness from `2^128` to
/// `2^144`.
pub proof fn lemma_squarings_128()
    requires
        pow(witness(), pow2(128)) % (prime() as int)
            == 0x114a27896d1fe4c5be965ba8dd54dbe7d3eef8ba72b1f03b0a6628d72fb8b0dint,
    ensures
        pow(witness(), pow2(144)) % (prime() as int)
            == 0x30a2e815081f7d927f73df497923b55d38dbf3801c203cee2bf6c4b68bc148cint,
{
    lemma_squared(
        witness(),
        128,
        0x114a27896d1fe4c5be965ba8dd54dbe7d3eef8ba72b1f03b0a6628d72fb8b0dint,
        0x592823dba66ff376dcfc3f204e3af6bdfdcae7a37e8a00691874856827caf53int,
    );
    lemma_squared(
        witness(),
        129,
        0x592823dba66ff376dcfc3f204e3af6bdfdcae7a37e8a00691874856827caf53int,
        0x3b9eb75bbfb94911160b441d34b0aa6084214302c65c94e8a0b9d028229376dint,
    );
    lemma_squared(
        witness(),
        130,
        0x3b9eb75bbfb94911160b441d34b0aa6084214302c65c94e8a0b9d028229376dint,
        0x3d70de4258c2f230bfa523a6e93f6f39a76a3127fa7c6c40175aa1c8a08756fint,
    );
    lemma_squared(
        witness(),
        131,
        0x3d70de4258c2f230bfa523a6e93f6f39a76a3127fa7c6c40175aa1c8a08756fint,
        0x759502052fe197918729111f59deccccb704d0fd6fc96251d2b75385f65c188int,
    );
    lemma_squared(
        witness(),
        132,
        0x759502052fe197918729111f59deccccb704d0fd6fc96251d2b75385f65c188int,
        0x71dd923ea63598d8a3a08baba82a050a566e7556861e2ce7f405a9f641826acint,
    );
    lemma_squared(
        witness(),
        133,
        0x71dd923ea63598d8a3a08baba82a050a566e7556861e2ce7f405a9f641826acint,
        0x395e7fc89f15c6fa8d469d88a1c381707403ad4e3681a159e0392a5120edfabint,
    );
    lemma_squared(
        witness(),
        134,
        0x395e7fc89f15c6fa8d469d88a1c381707403ad4e3681a159e0392a5120edfabint,
        0xf9ea29c819531b85b1f9bd5d1e2f0e82bc79b987969b48275e6b02f8133966int,
    );
    lemma_squared(
        witness(),
        135,
        0xf9ea29c819531b85b1f9bd5d1e2f0e82bc79b987969b48275e6b02f8133966int,
        0x147819bc9a18a1cfd1de1f92c5db3a45327d617477d39beefa724771cc4133cint,
    );
    lemma_squared(
        witness(),
        136,
        0x147819bc9a18a1cfd1de1f92c5db3a45327d617477d39beefa724771cc4133cint,
        0x36dd150a43bc89878c40b06cad54cf279d6de4827a1bbb138b8dc2ab6a791f1int,
    );
    lemma_squared(
        witness(),
        137,
        0x36dd150a43bc89878c40b06cad54cf279d6de4827a1bbb138b8dc2ab6a791f1int,
        0x7ec89264e3003f84f4471d7dfbc1d9736feeeead45eb3f52755d6c2850fb317int,
    );
    lemma_squared(
        witness(),
        138,
        0x7ec89264e3003f84f4471d7dfbc1d9736feeeead45eb3f52755d6c2850fb317int,
        0xc447edf93f2b505849ed84ad9302ddbb866a23200d367a2922d09e97bf51cint,
    );
    lemma_squared(
        witness(),
        139,
        0xc447edf93f2b505849ed84ad9302ddbb866a23200d367a2922d09e97bf51cint,
        0x593fcefc33590efc565794d54acb87c99f4d1a0c71ccc0d39bc513194ceaf98int,
    );
    lemma_squared(
        witness(),
        140,
        0x593fcefc33590efc565794d54acb87c99f4d1a0c71ccc0d39bc513194ceaf98int,
        0x59655bca59fd24212862a438a9a38b55582a9ff67455b5dc0cc855634db29f8int,
    );
    lemma_squared(
        witness(),
        141,
        0x59655bca59fd24212862a438a9a38b55582a9ff67455b5dc0cc855634db29f8int,
        0x20895f803549e6077772f7c9ed55af88013dd5e588c8a511527727196934000int,
    );
    lemma_squared(
        witness(),
        142,
        0x20895f803549e6077772f7c9ed55af88013dd5e588c8a511527727196934000int,
        0x28d98a5c724e0c5cb05b3daaa13ffe5d4f3510d99cdc2e0be23b78ff11422a0int,
    );
    lemma_squared(
        witness(),
        143,
        0x28d98a5c724e0c5cb05b3daaa13ffe5d4f3510d99cdc2e0be23b78ff11422a0int,
        0x30a2e815081f7d927f73df497923b55d38dbf3801c203cee2bf6c4b68bc148cint,
    );
}

/// The squarings that take the exponent of the witness from `2^144` to
/// `2^160`.
pub proof fn lemma_squarings_144()
    requires
        pow(witness(), pow2(144)) % (prime() as int)
            == 0x30a2e815081f7d927f73df497923b55d38dbf3801c203cee2bf6c4b68bc148cint,
    ensures
        pow(witness(), pow2(160)) % (prime() as int)
            == 0x50732ed0be8ced2fea566de48221e1a719252eb81c43de5c129d0f1d3ce8992int,
{
    lemma_squared(
        witness(),
        144,
        0x30a2e815081f7d927f73df497923b55d38dbf3801c203cee2bf6c4b68bc148cint,
        0x9214cedbd56ba72ee2fccfb26a3811adfa956c86781a31852ba56e0643771fint,
    );
    lemma_squared(
        witness(),
        145,
        0x9214cedbd56ba72ee2fccfb26a3811adfa956c86781a31852ba56e0643771fint,
        0x7f3796f1055c25d713383d44e17ff38978f978534d1905d374012a6cc60fb85int,
    );
    lemma_squared(
        witness(),
        146,
        0x7f3796f1055c25d713383d44e17ff38978f978534d1905d374012a6cc60fb85int,
        0x5f5cf394a0503588a81d1376b06db5cbcc17ccd153c3d28462b41fadd5ca525int,
    );
    lemma_squared(
        witness(),
        147,
        0x5f5cf394a0503588a81d1376b06db5cbcc17ccd153c3d28462b41fadd5ca525int,
        0x41ed5ed684fdb65a4b4eb09a3db81cdcd942bbdbb11fb86b640956fc3111bcbint,
    );
    lemma_squared(
        witness(),
        148,
        0x41ed5ed684fdb65a4b4eb09a3db81cdcd942bbdbb11fb86b640956fc3111bcbint,
        0x2c4d3fae555c739dbb200719df95366fadfc0509c9f7f04ad7108d3e6fcfdb2int,
    );
    lemma_squared(
        witness(),
        149,
        0x2c4d3fae555c739dbb200719df95366fadfc0509c9f7f04ad7108d3e6fcfdb2int,
        0x39ccdaa2f14e2f1e4f1f15bad75d32a5a48d46994be15ba38eaa186140e5623int,
    );
    lemma_squared(
        witness(),
        150,
        0x39ccdaa2f14e2f1e4f1f15bad75d32a5a48d46994be15ba38eaa186140e5623int,
        0x276097355446d35226f0a071a545f8b2319450aba5762ab5a896ef3b3bd8b7eint,
    );
    lemma_squared(
        witness(),
        151,
        0x276097355446d35226f0a071a545f8b2319450aba5762ab5a896ef3b3bd8b7eint,
        0x66d3f613676644e7fd3b59b4d1be159d5c3359362a1db767d13e948f39cd3e8int,
    );
    lemma_squared(
        witness(),
        152,
        0x66d3f613676644e7fd3b59b4d1be159d5c3359362a1db767d13e948f39cd3e8int,
        0x2b73cad6474b8f04f696cbaaceeb7f746aba1bcc7505f356966804cd990d491int,
    );
    lemma_squared(
        witness(),
        153,
        0x2b73cad6474b8f04f696cbaaceeb7f746aba1bcc7505f356966804cd990d491int,
        0x772cb7af261b6de31150ac13481c4fe3fef7c1b224402352693b83400637050int,
    );
    lemma_squared(
        witness(),
        154,
        0x772cb7af261b6de31150ac13481c4fe3fef7c1b224402352693b83400637050int,
        0x100fff97b116fb92aa7ae1b21254c395c2006273fab8962051093f0622478c4int,
    );
    lemma_squared(
        witness(),
        155,
        0x100fff97b116fb92aa7ae1b21254c395c2006273fab8962051093f0622478c4int,
        0x685db923d7f5ae64f24ab196896a559860d442c8aea6ff765a19cf408a616fcint,
    );
    lemma_squared(
        witness(),
        156,
        0x685db923d7f5ae64f24ab196896a559860d442c8aea6ff765a19cf408a616fcint,
        0x2399005571ddc34f58069e2cf93b2e59dca12d8ec14ba21081c31665dd8c4c3int,
    );
    lemma_squared(
        witness(),
        157,
        0x2399005571ddc34f58069e2cf93b2e59dca12d8ec14ba21081c31665dd8c4c3int,
        0x7badc4b5d4ec2923c49a6302109fd561feb39d77d671a9d3ccd9d2b76b0a92eint,
    );
    lemma_squared(
        witness(),
        158,
        0x7badc4b5d4ec2923c49a6302109fd561feb39d77d671a9d3ccd9d2b76b0a92eint,
        0x166c8e216a6e39cbd6ae1606340df6f95e231acd72200159aae0db32216f1c8int,
    );
    lemma_squared(
        witness(),
        159,
        0x166c8e216a6e39cbd6ae1606340df6f95e231acd72200159aae0db32216f1c8int,
        0x50732ed0be8ced2fea566de48221e1a719252eb81c43de5c129d0f1d3ce8992int,
    );
}

/// The squarings that take the exponent of the witness from `2^160` to
/// `2^176`.
pub proof fn lemma_squarings_160()
    requires
        pow(witness(), pow2(160)) % (prime() as int)
            == 0x50732ed0be8ced2fea566de48221e1a719252eb81c43de5c129d0f1d3ce8992int,
    ensures
        pow(witness(), pow2(176)) % (prime() as int)
            == 0x1eb6d849978ee09b9d2cd854901fab81646d633f51eddbc80ee9837309d9da9int,
{
    lemma_squared(
        witness(),
        160,
        0x50732ed0be8ced2fea566de48221e1a719252eb81c43de5c129d0f1d3ce8992int,
        0x60ac0c4573f0c286fec2239a9565d986a788149b9b9f2c98265b62b5de74517int,
    );
    lemma_squared(
        witness(),
        161,
        0x60ac0c4573f0c286fec2239a9565d986a788149b9b9f2c98265b62b5de74517int,
        0x22bde4080fb4ceae566a8e1c04b00b774a6431091af248d209745aaf81f58b4int,
    );
    lemma_squared(
        witness(),
        162,
        0x22bde4080fb4ceae566a8e1c04b00b774a6431091af248d209745aaf81f58b4int,
        0x5e7decaf2b876575397e8e2f1ee840cae9c3f9a3a96c59ef42231bbb030713cint,
    );
    lemma_squared(
        witness(),
        163,
        0x5e7decaf2b876575397e8e2f1ee840cae9c3f9a3a96c59ef42231bbb030713cint,
        0x57a797181c06d8427145cb66056f032751615d8617c5468258e96d2bb6422f9int,
    );
    lemma_squared(
        witness(),
        164,
        0x57a797181c06d8427145cb66056f032751615d8617c5468258e96d2bb6422f9int,
        0x1f05206a93b28f3ce0bc0d9fee282e4102e16b264c12e72eac5be9eea5f81cfint,
    );
    lemma_squared(
        witness(),
        165,
        0x1f05206a93b28f3ce0bc0d9fee282e4102e16b264c12e72eac5be9eea5f81cfint,
        0x3d8d2c79e51225ca679e36b4795d34603148f22aa2da68432609f1d4586dbc3int,
    );
    lemma_squared(
        witness(),
        166,
        0x3d8d2c79e51225ca679e36b4795d34603148f22aa2da68432609f1d4586dbc3int,
        0x6e8e7695c437763ce9a0d37f5fa46656e3398e68ef9a25ab86b03a44ca88ffcint,
    );
    lemma_squared(
        witness(),
        167,
        0x6e8e7695c437763ce9a0d37f5fa46656e3398e68ef9a25ab86b03a44ca88ffcint,
        0x71a47b8174a8e80e643d3ead664f4da1ad6f3beddc0f211f6b1348877156db2int,
    );
    lemma_squared(
        witness(),
        168,
        0x71a47b8174a8e80e643d3ead664f4da1ad6f3beddc0f211f6b1348877156db2int,
        0x1054544afb3df1a81cb2e43cd0be360d7c9c0a1b32a3b2301af11c3b40bdbe8int,
    );
    lemma_squared(
        witness(),
        169,
        0x1054544afb3df1a81cb2e43cd0be360d7c9c0a1b32a3b2301af11c3b40bdbe8int,
        0x3e4383531eeac7c9822fb108d24a344d841544dd6482f17ead331453e3a2f4bint,
    );
    lemma_squared(
        witness(),
        170,
        0x3e4383531eeac7c9822fb108d24a344d841544dd6482f17ead331453e3a2f4bint,
        0x1f4c2bfbeea04f127e46d76ecbf157b030530a6e7c1b2fd006547440e5ffcb8int,
    );
    lemma_squared(
        witness(),
        171,
        0x1f4c2bfbeea04f127e46d76ecbf157b030530a6e7c1b2fd006547440e5ffcb8int,
        0x594beafca8a00d9581d81caee93dc85c727c9af7fc4c648e3d47b998574e81fint,
    );
    lemma_squared(
        witness(),
        172,
        0x594beafca8a00d9581d81caee93dc85c727c9af7fc4c648e3d47b998574e81fint,
        0x2d25658f71614e33e277fa0223f6558858f5918f973dc221727fce0bffaa9dbint,
    );
    lemma_squared(
        witness(),
        173,
        0x2d25658f71614e33e277fa0223f6558858f5918f973dc221727fce0bffaa9dbint,
        0x4768803ef85256034f67453635f87997ff61841e411ee63ce7b0a8b9745a046int,
    );
    lemma_squared(
        witness(),
        174,
        0x4768803ef85256034f67453635f87997ff61841e411ee63ce7b0a8b9745a046int,
        0x6a6f98dc9761a8a0eeadedd3109e6119ec8116ceb7aa1c1a7b1f98c2755bfacint,
    );
    lemma_squared(
        witness(),
        175,
        0x6a6f98dc9761a8a0eeadedd3109e6119ec8116ceb7aa1c1a7b1f98c2755bfacint,
        0x1eb6d849978ee09b9d2cd854901fab81646d633f51eddbc80ee9837309d9da9int,
    );
}

/// The squarings that take the exponent of the witness from `2^176` to
/// `2^191`.
pub proof fn lemma_squarings_176()
    requires
        pow(witness(), pow2(176)) % (prime() as int)
            == 0x1eb6d849978ee09b9d2cd854901fab81646d633f51eddbc80ee9837309d9da9int,
    ensures
        pow(witness(), pow2(191)) % (prime() as int)
            == 0x800000000000011000000000000000000000000000000000000000000000000int,
{
    lemma_squared(
        witness(),
        176,
        0x1eb6d849978ee09b9d2cd854901fab81646d633f51eddbc80ee9837309d9da9int,
        0x34b5d5d611b72061c3a6e5c8bdbd9b393898bc862ef8a01e3efc75d13a77460int,
    );
    lemma_squared(
        witness(),
        177,
        0x34b5d5d611b72061c3a6e5c8bdbd9b393898bc862ef8a01e3efc75d13a77460int,
        0x393a32b34832dbad650df250f673d7c5edd09f076fc314a3e5a42f0606082e1int,
    );
    lemma_squared(
        witness(),
        178,
        0x393a32b34832dbad650df250f673d7c5edd09f076fc314a3e5a42f0606082e1int,
        0x363d70a6538624f68c341845689b2325c4564ebadf9bf788171e1da3112b02dint,
    );
    lemma_squared(
        witness(),
        179,
        0x363d70a6538624f68c341845689b2325c4564ebadf9bf788171e1da3112b02dint,
        0x3d14df6ec477cfc061f4256749ae3ddb5375bc91ee171f9273dbbc7afd187fint,
    );
    lemma_squared(
        witness(),
        180,
        0x3d14df6ec477cfc061f4256749ae3ddb5375bc91ee171f9273dbbc7afd187fint,
        0x10f4d91b5d9a6deed5ebbf4a3492c1ed439f57211b54c6c453916920fa30710int,
    );
    lemma_squared(
        witness(),
        181,
        0x10f4d91b5d9a6deed5ebbf4a3492c1ed439f57211b54c6c453916920fa30710int,
        0x659d83946a03edd72406af6711825f5653d9e35dc125289a206c054ec89c4f1int,
    );
    lemma_squared(
        witness(),
        182,
        0x659d83946a03edd72406af6711825f5653d9e35dc125289a206c054ec89c4f1int,
        0x11d07d97880b4dc0234b46e6d4b9bd4a1f811a9e3bc8e32cc4074a0c13a1d0bint,
    );
    lemma_squared(
        witness(),
        183,
        0x11d07d97880b4dc0234b46e6d4b9bd4a1f811a9e3bc8e32cc4074a0c13a1d0bint,
        0xc92ecbfd121b58bc7924d5dd51a717c4d78992d0e87cd59f1bc8d7ff0cb347int,
    );
    lemma_squared(
        witness(),
        184,
        0xc92ecbfd121b58bc7924d5dd51a717c4d78992d0e87cd59f1bc8d7ff0cb347int,
        0xfcad19556f9b8587781ce1b03a097efa6682256f9ddbcfdab65dbdd4af20fint,
    );
    lemma_squared(
        witness(),
        185,
        0xfcad19556f9b8587781ce1b03a097efa6682256f9ddbcfdab65dbdd4af20fint,
        0x128f0fee82b2bb55e869a0710826800d09bd064f9e225ecd6871506b2703765int,
    );
    lemma_squared(
        witness(),
        186,
        0x128f0fee82b2bb55e869a0710826800d09bd064f9e225ecd6871506b2703765int,
        0x789ad459ecd5c85fcdca219ce6246af26da375d1a8e79812225638f9b48a8abint,
    );
    lemma_squared(
        witness(),
        187,
        0x789ad459ecd5c85fcdca219ce6246af26da375d1a8e79812225638f9b48a8abint,
        0x5ec467b88826aba4537602d514425f3b0bdf467bbf302458337c45f6021e539int,
    );
    lemma_squared(
        witness(),
        188,
        0x5ec467b88826aba4537602d514425f3b0bdf467bbf302458337c45f6021e539int,
        0x63365fe0de874d9c90adb1e2f9c676e98c62155e4412e873ada5e1dee6feebbint,
    );
    lemma_squared(
        witness(),
        189,
        0x63365fe0de874d9c90adb1e2f9c676e98c62155e4412e873ada5e1dee6feebbint,
        0x625023929a2995b533120664329f8c7c5268e56ac8320da2a616626f41337e3int,
    );
    lemma_squared(
        witness(),
        190,
        0x625023929a2995b533120664329f8c7c5268e56ac8320da2a616626f41337e3int,
        0x800000000000011000000000000000000000000000000000000000000000000int,
    );
}

/// The witness to the power `2^191` is `-1` modulo the prime.
pub proof fn lemma_witness_order()
    ensures
        pow(witness(), pow2(191)) % (prime() as int) == prime() - 1,
{
    lemma_pow1(witness());
    lemma2_to64();
    assert(pow2(0) == 1);
    assert(pow(witness(), pow2(0)) % (prime() as int) == witness());
    lemma_squarings_0();
    lemma_squarings_16();
    lemma_squarings_32();
    lemma_squarings_48();
    lemma_squarings_64();
    lemma_squarings_80();
    lemma_squarings_96();
    lemma_squarings_112();
    lemma_squarings_128();
    lemma_squarings_144();
    lemma_squarings_160();
    lemma_squarings_176();
}

/// Whether `d` is a period of `b` modulo `r`: a positive exponent that takes
/// `b` to one.
pub open spec fn is_period(b: int, r: int, d: nat) -> bool {
    d > 0 && pow(b, d) % r == 1
}

/// Where `b` has a period, it has a least one.
pub proof fn lemma_least_period(b: int, r: int, w: nat) -> (d: nat)
    requires
        is_period(b, r, w),
    ensures
        is_period(b, r, d),
        d <= w,
        forall|t: nat| 0 < t < d ==> !#[trigger] is_period(b, r, t),
    decreases w,
{
    if exists|t: nat| t < w && #[trigger] is_period(b, r, t) {
        let t = choose|t: nat| t < w && #[trigger] is_period(b, r, t);
        lemma_least_period(b, r, t)
    } else {
        w
    }
}

/// A power of a residue that is one modulo `r` is one modulo `r`.
pub proof fn lemma_power_of_one(x: int, q: nat, r: int)
    requires
        r > 1,
        x % r == 1,
    ensures
        pow(x, q) % r == 1,
{
    lemma_pow_mod_noop(x, q, r);
    lemma1_pow(q);
    lemma_small_mod(1, r as nat);
}

/// The least period of `b` divides every exponent that takes `b` to one.
pub proof fn lemma_period_divides(b: int, r: int, d: nat, k: nat)
    requires
        r > 1,
        is_period(b, r, d),
        forall|t: nat| 0 < t < d ==> !#[trigger] is_period(b, r, t),
        pow(b, k) % r == 1,
    ensures
        k % d == 0,
{
    let q = k / d;
    let rest = k % d;
    lemma_fundamental_div_mod(k as int, d as int);
    lemma_mod_bound(k as int, d as int);
    lemma_div_pos_is_pos(k as int, d as int);
    lemma_mul_nonnegative(d as int, q as int);
    let whole = (d * q) as nat;
    assert(k == whole + rest);
    lemma_pow_adds(b, whole, rest);
    lemma_pow_multiplies(b, d, q);
    lemma_power_of_one(pow(b, d), q, r);
    assert(pow(b, whole) % r == 1);
    lemma_mul_mod_noop_general(pow(b, whole), pow(b, rest), r);
    assert(1 * (pow(b, rest) % r) == pow(b, rest) % r);
    lemma_mod_twice(pow(b, rest), r);
    assert(pow(b, rest) % r == 1);
    if rest > 0 {
        assert(is_period(b, r, rest));
    }
}

/// A divisor of a power of two that is more than one is even.
pub proof fn lemma_divisor_of_power_of_two(q: nat, m: nat, k: nat)
    requires
        q * m == pow2(k),
        q > 1,
    ensures
        q % 2 == 0,
    decreases k,
{
    if q % 2 != 0 {
        lemma_pow2_pos(k);
        if k == 0 {
            lemma2_to64();
            assert(m >= 1) by (nonlinear_arith)
                requires
                    q * m == 1,
            ;
            assert(q * m >= 2) by (nonlinear_arith)
                requires
                    q >= 2,
                    m >= 1,
            ;
        } else {
            lemma_pow2_unfold(k);
            lemma_mul_mod_noop_general(q as int, m as int, 2);
            assert((2 * pow2((k - 1) as nat)) % 2 == 0) by {
                lemma_mod_multiples_basic(pow2((k - 1) as nat) as int, 2);
                assert(2 * pow2((k - 1) as nat) == pow2((k - 1) as nat) * 2);
            }
            assert(q % 2 == 1);
            assert(1 * ((m as int) % 2) == (m as int) % 2);
            lemma_mod_twice(m as int, 2);
            assert(m % 2 == 0);
            let h = m / 2;
            lemma_fundamental_div_mod(m as int, 2);
            assert(m == 2 * h);
            assert(q * h == pow2((k - 1) as nat)) by (nonlinear_arith)
                requires
                    q * m == 2 * pow2((k - 1) as nat),
                    m == 2 * h,
            ;
            lemma_divisor_of_power_of_two(q, h, (k - 1) as nat);
        }
    }
}

/// Modulo a divisor `r` of the prime that is more than one, the witness has
/// the period `2^192` and none that is smaller: its power `2^191` is `-1`
/// there, which is not one.
pub proof fn lemma_order_of_witness(r: int)
    requires
        r > 1,
        (prime() as int) % r == 0,
    ensures
        pow(witness(), pow2(192)) % r == 1,
        forall|t: nat| 0 < t < pow2(192) ==> !#[trigger] is_period(witness(), r, t),
{
    let n = prime() as int;
    let b = witness();
    let s = n / r;
    lemma_witness_order();
    lemma_fundamental_div_mod(n, r);
    assert(n == r * s);
    assert(s > 0) by (nonlinear_arith)
        requires
            n == r * s,
            n > 0,
            r > 0,
    ;
    assert(r != 2) by {
        if r == 2 {
            assert(n % 2 == 1);
        }
    }
    let half = pow(b, pow2(191));
    lemma_mod_mod(half, r, s);
    assert(half % r == (n - 1) % r);
    assert(n - 1 == (s - 1) * r + (r - 1)) by (nonlinear_arith)
        requires
            n == r * s,
    ;
    lemma_fundamental_div_mod_converse(n - 1, r, s - 1, r - 1);
    assert(half % r == r - 1);
    lemma_pow2_unfold(192);
    assert(pow2(192) == pow2(191) + pow2(191));
    lemma_pow_adds(b, pow2(191), pow2(191));
    lemma_mul_mod_noop_general(half, half, r);
    assert((r - 1) * (r - 1) == (r - 2) * r + 1) by (nonlinear_arith);
    lemma_fundamental_div_mod_converse((r - 1) * (r - 1), r, r - 2, 1);
    assert(pow(b, pow2(192)) % r == 1);
    lemma_pow2_pos(192);
    let d = lemma_least_period(b, r, pow2(192));
    lemma_period_divides(b, r, d, pow2(192));
    if d < pow2(192) {
        let q = pow2(192) / d;
        lemma_fundamental_div_mod(pow2(192) as int, d as int);
        assert(pow2(192) == d * q);
        assert(q > 1) by (nonlinear_arith)
            requires
                pow2(192) == d * q,
                0 < d < pow2(192),
        ;
        assert(q * d == pow2(192)) by (nonlinear_arith)
            requires
                pow2(192) == d * q,
        ;
        lemma_divisor_of_power_of_two(q, d, 192);
        let h = q / 2;
        lemma_fundamental_div_mod(q as int, 2);
        assert(q == 2 * h);
        assert(d * h == pow2(191)) by (nonlinear_arith)
            requires
                d * q == 2 * pow2(191),
                q == 2 * h,
        ;
        lemma_pow_multiplies(b, d, h);
        lemma_power_of_one(pow(b, d), h, r);
        assert(half % r == 1);
        assert(false);
    }
    assert(d == pow2(192));
}

/// Modulo a divisor `r` of the prime that is more than one, powers of the
/// witness with different exponents below `2^192` differ.
pub proof fn lemma_powers_differ(r: int, i: nat, j: nat)
    requires
        r > 1,
        (prime() as int) % r == 0,
        i < j < pow2(192),
    ensures
        pow(witness(), i) % r != pow(witness(), j) % r,
{
    let b = witness();
    lemma_order_of_witness(r);
    if pow(b, i) % r == pow(b, j) % r {
        let u = (pow2(192) - i) as nat;
        let t = (j - i) as nat;
        lemma_pow_adds(b, i, u);
        lemma_pow_adds(b, j, u);
        lemma_mul_mod_noop_general(pow(b, i), pow(b, u), r);
        lemma_mul_mod_noop_general(pow(b, j), pow(b, u), r);
        assert(pow(b, j + u) % r == 1);
        assert(j + u == pow2(192) + t);
        lemma_pow_adds(b, pow2(192), t);
        lemma_mul_mod_noop_general(pow(b, pow2(192)), pow(b, t), r);
        assert(1 * (pow(b, t) % r) == pow(b, t) % r);
        lemma_mod_twice(pow(b, t), r);
        assert(is_period(b, r, t));
    }
}

/// A divisor of the prime that is more than one is at least `2^192`: the
/// powers of the witness below `2^192` are that many different residues.
pub proof fn lemma_divisor_is_large(r: int)
    requires
        r > 1,
        (prime() as int) % r == 0,
    ensures
        r >= pow2(192),
{
    let m = pow2(192) as int;
    if r < m {
        let b = witness();
        let f = |i: int| pow(b, i as nat) % r;
        let domain = set_int_range(0, m);
        let residues = set_int_range(0, r);
        lemma_int_range(0, m);
        lemma_int_range(0, r);
        assert forall|i: int, j: int|
            domain.contains(i) && domain.contains(j) && #[trigger] f(i) == #[trigger] f(
                j,
            ) implies i == j by {
            if i < j {
                lemma_powers_differ(r, i as nat, j as nat);
            } else if j < i {
                lemma_powers_differ(r, j as nat, i as nat);
            }
        }
        assert(injective_on(f, domain));
        let image = domain.map(f);
        lemma_map_size(domain, image, f);
        assert forall|y: int| image.contains(y) implies residues.contains(y) by {
            let i = choose|i: int| domain.contains(i) && y == f(i);
            lemma_mod_bound(pow(b, i as nat), r);
        }
        lemma_len_subset(image, residues);
        assert(false);
    }
}

/// `2^192` written out.
pub proof fn lemma_value_of_two_192()
    ensures
        pow2(192) == 0x1_0000_0000_0000_0000_0000_0000_0000_0000_0000_0000_0000_0000int,
{
    lemma2_to64();
    lemma_pow2_adds(64, 64);
    lemma_pow2_adds(128, 64);
    assert(pow2(128) == 0x1_0000_0000_0000_0000_0000_0000_0000_0000int) by (nonlinear_arith)
        requires
            pow2(128) == pow2(64) * pow2(64),
            pow2(64) == 0x1_0000_0000_0000_0000int,
    ;
    assert(pow2(192) == 0x1_0000_0000_0000_0000_0000_0000_0000_0000_0000_0000_0000_0000int)
        by (nonlinear_arith)
        requires
            pow2(192) == pow2(128) * pow2(64),
            pow2(128) == 0x1_0000_0000_0000_0000_0000_0000_0000_0000int,
            pow2(64) == 0x1_0000_0000_0000_0000int,
    ;
}

/// Whether `n` is a prime number: more than one, and divided by no number
/// between one and itself.
pub open spec fn is_prime(n: int) -> bool {
    n > 1 && forall|d: int| 1 < d < n ==> #[trigger] (n % d) != 0
}

/// The modulus of the field is a prime number.
pub proof fn theorem_modulus_is_prime()
    ensures
        is_prime(prime() as int),
{
    let n = prime() as int;
    assert forall|d: int| 1 < d < n implies #[trigger] (n % d) != 0 by {
        if n % d == 0 {
            let s = n / d;
            lemma_fundamental_div_mod(n, d);
            assert(n == d * s);
            assert(1 < s < n) by (nonlinear_arith)
                requires
                    n == d * s,
                    1 < d < n,
            ;
            assert(n == s * d) by (nonlinear_arith)
                requires
                    n == d * s,
            ;
            lemma_fundamental_div_mod_converse(n, s, d, 0);
            lemma_divisor_is_large(d);
            lemma_divisor_is_large(s);
            lemma_value_of_two_192();
            let big = pow2(192) as int;
            assert(d * s >= big * big) by (nonlinear_arith)
                requires
                    d >= big,
                    s >= big,
                    big >= 0,
            ;
            assert(big * big > n) by (nonlinear_arith)
                requires
                    big == 0x1_0000_0000_0000_0000_0000_0000_0000_0000_0000_0000_0000_0000int,
                    n == 0x800000000000011000000000000000000000000000000000000000000000001int,
            ;
            assert(false);
        }
    }
}

/// Two numbers, not both zero, have a common divisor that is a sum of
/// multiples of them: the divisor and the two factors.
pub proof fn lemma_common_divisor(a: nat, b: nat) -> (r: (int, int, nat))
    requires
        a > 0 || b > 0,
    ensures
        r.2 > 0,
        a * r.0 + b * r.1 == r.2,
        a % r.2 == 0,
        b % r.2 == 0,
    decreases b,
{
    if b == 0 {
        lemma_mod_self_0(a as int);
        (1, 0, a)
    } else {
        let q = (a / b) as int;
        let rest = a % b;
        lemma_fundamental_div_mod(a as int, b as int);
        lemma_mod_bound(a as int, b as int);
        let (x, y, g) = lemma_common_divisor(b, rest);
        assert(a * y + b * (x - q * y) == g) by (nonlinear_arith)
            requires
                a == b * q + rest,
                b * x + rest * y == g,
        ;
        lemma_mul_mod_noop_general(b as int, q, g as int);
        assert(((b as int) % (g as int)) * (q % (g as int)) == 0) by (nonlinear_arith)
            requires
                (b as int) % (g as int) == 0,
        ;
        lemma_add_mod_noop(b * q, rest as int, g as int);
        assert(a % g == 0);
        (y, x - q * y, g)
    }
}

/// Every residue but zero has a multiplicative inverse modulo the prime.
pub proof fn lemma_nonzero_is_invertible(y: nat)
    requires
        0 < y < prime(),
    ensures
        invertible(y),
{
    let n = prime() as int;
    theorem_modulus_is_prime();
    let (u, v, g) = lemma_common_divisor(y, prime());
    if g > 1 {
        lemma_fundamental_div_mod(y as int, g as int);
        let h = y / g;
        assert(g <= y) by (nonlinear_arith)
            requires
                y == g * h,
                y > 0,
                g > 0,
                h >= 0,
        ;
        assert(n % (g as int) == 0);
        assert(false);
    }
    assert(g == 1);
    let k = (u % n) as nat;
    lemma_mod_bound(u, n);
    lemma_mul_mod_noop_left(u, y as int, n);
    assert(u * y == (-v) * n + 1) by (nonlinear_arith)
        requires
            y * u + n * v == 1,
    ;
    lemma_fundamental_div_mod_converse(u * y, n, -v, 1);
    assert((k * y) % prime() == 1);
}

/// A residue has a multiplicative inverse exactly where it is not zero.
pub proof fn law_invertible_but_zero(y: nat)
    requires
        y < prime(),
    ensures
        invertible(y) <==> y != 0,
{
    if y != 0 {
        lemma_nonzero_is_invertible(y);
    } else {
        crate::felt::big::lemma_zero_not_invertible();
    }
}

} // verus!
