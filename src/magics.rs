use vstd::prelude::*;

use crate::lookup::MagicLookup;

verus! {

/// The magic entry of the rook table for the square of index `square`.
pub open spec fn rook_magic_entry(square: int) -> MagicLookup {
    if square <= 0 {
        MagicLookup { magic: 17539749073859413632, length: 13, offset: 0 }
    } else if square == 1 {
        MagicLookup { magic: 18428168386530501225, length: 12, offset: 8192 }
    } else if square == 2 {
        MagicLookup { magic: 12702083310888480839, length: 12, offset: 12288 }
    } else if square == 3 {
        MagicLookup { magic: 3846109785921932284, length: 12, offset: 16384 }
    } else if square == 4 {
        MagicLookup { magic: 16861490204039056361, length: 12, offset: 20480 }
    } else if square == 5 {
        MagicLookup { magic: 9285291086477813540, length: 12, offset: 24576 }
    } else if square == 6 {
        MagicLookup { magic: 7429954234262713712, length: 12, offset: 28672 }
    } else if square == 7 {
        MagicLookup { magic: 3329005740130798227, length: 13, offset: 32768 }
    } else if square == 8 {
        MagicLookup { magic: 1298725636013758581, length: 12, offset: 40960 }
    } else if square == 9 {
        MagicLookup { magic: 9193095890061664258, length: 11, offset: 45056 }
    } else if square == 10 {
        MagicLookup { magic: 1319328018402494852, length: 11, offset: 47104 }
    } else if square == 11 {
        MagicLookup { magic: 2939137941690521164, length: 11, offset: 49152 }
    } else if square == 12 {
        MagicLookup { magic: 6064108122372835925, length: 11, offset: 51200 }
    } else if square == 13 {
        MagicLookup { magic: 13055278107152740950, length: 11, offset: 53248 }
    } else if square == 14 {
        MagicLookup { magic: 10035146660281323534, length: 10, offset: 55296 }
    } else if square == 15 {
        MagicLookup { magic: 3335759964198617856, length: 11, offset: 56320 }
    } else if square == 16 {
        MagicLookup { magic: 1004122965041884545, length: 12, offset: 58368 }
    } else if square == 17 {
        MagicLookup { magic: 4403068103255187912, length: 11, offset: 62464 }
    } else if square == 18 {
        MagicLookup { magic: 16208349368206360414, length: 11, offset: 64512 }
    } else if square == 19 {
        MagicLookup { magic: 6168229617208161888, length: 11, offset: 66560 }
    } else if square == 20 {
        MagicLookup { magic: 4016775631525709824, length: 11, offset: 68608 }
    } else if square == 21 {
        MagicLookup { magic: 9336123771319246053, length: 11, offset: 70656 }
    } else if square == 22 {
        MagicLookup { magic: 16811827459153922600, length: 10, offset: 72704 }
    } else if square == 23 {
        MagicLookup { magic: 15792393262197490695, length: 11, offset: 73728 }
    } else if square == 24 {
        MagicLookup { magic: 3330302892402002429, length: 12, offset: 75776 }
    } else if square == 25 {
        MagicLookup { magic: 15617419618970615812, length: 11, offset: 79872 }
    } else if square == 26 {
        MagicLookup { magic: 5005252727203154999, length: 11, offset: 81920 }
    } else if square == 27 {
        MagicLookup { magic: 6014342957716807168, length: 10, offset: 83968 }
    } else if square == 28 {
        MagicLookup { magic: 16547418057126236375, length: 11, offset: 84992 }
    } else if square == 29 {
        MagicLookup { magic: 9677004249293159488, length: 10, offset: 87040 }
    } else if square == 30 {
        MagicLookup { magic: 16799966458950257200, length: 10, offset: 88064 }
    } else if square == 31 {
        MagicLookup { magic: 3760757348168369551, length: 11, offset: 89088 }
    } else if square == 32 {
        MagicLookup { magic: 17903314760131816170, length: 12, offset: 91136 }
    } else if square == 33 {
        MagicLookup { magic: 14350903318476798948, length: 11, offset: 95232 }
    } else if square == 34 {
        MagicLookup { magic: 4735014135806558311, length: 11, offset: 97280 }
    } else if square == 35 {
        MagicLookup { magic: 2657793590518776756, length: 11, offset: 99328 }
    } else if square == 36 {
        MagicLookup { magic: 10407513077741261344, length: 10, offset: 101376 }
    } else if square == 37 {
        MagicLookup { magic: 7781325019400924169, length: 11, offset: 102400 }
    } else if square == 38 {
        MagicLookup { magic: 967948822200193046, length: 10, offset: 104448 }
    } else if square == 39 {
        MagicLookup { magic: 16990689051604418891, length: 11, offset: 105472 }
    } else if square == 40 {
        MagicLookup { magic: 13943104455253819376, length: 12, offset: 107520 }
    } else if square == 41 {
        MagicLookup { magic: 16726374042622762720, length: 11, offset: 111616 }
    } else if square == 42 {
        MagicLookup { magic: 4020995869991312101, length: 11, offset: 113664 }
    } else if square == 43 {
        MagicLookup { magic: 6443816560033073312, length: 11, offset: 115712 }
    } else if square == 44 {
        MagicLookup { magic: 12813145568846974906, length: 11, offset: 117760 }
    } else if square == 45 {
        MagicLookup { magic: 10290579580686138261, length: 11, offset: 119808 }
    } else if square == 46 {
        MagicLookup { magic: 8425920614473924656, length: 10, offset: 121856 }
    } else if square == 47 {
        MagicLookup { magic: 8404627409860952091, length: 11, offset: 122880 }
    } else if square == 48 {
        MagicLookup { magic: 6760168650055185920, length: 11, offset: 124928 }
    } else if square == 49 {
        MagicLookup { magic: 2862249266461106688, length: 10, offset: 126976 }
    } else if square == 50 {
        MagicLookup { magic: 6292234918110093824, length: 10, offset: 128000 }
    } else if square == 51 {
        MagicLookup { magic: 7559003079236952576, length: 10, offset: 129024 }
    } else if square == 52 {
        MagicLookup { magic: 3317000373142597633, length: 11, offset: 130048 }
    } else if square == 53 {
        MagicLookup { magic: 3002202615898640888, length: 11, offset: 132096 }
    } else if square == 54 {
        MagicLookup { magic: 17426459281259111424, length: 10, offset: 134144 }
    } else if square == 55 {
        MagicLookup { magic: 3500935622424859136, length: 11, offset: 135168 }
    } else if square == 56 {
        MagicLookup { magic: 17173581100111364293, length: 12, offset: 137216 }
    } else if square == 57 {
        MagicLookup { magic: 3398494792583266694, length: 11, offset: 141312 }
    } else if square == 58 {
        MagicLookup { magic: 16424199035247690098, length: 11, offset: 143360 }
    } else if square == 59 {
        MagicLookup { magic: 7127372050157055082, length: 12, offset: 145408 }
    } else if square == 60 {
        MagicLookup { magic: 12730666794481791482, length: 12, offset: 149504 }
    } else if square == 61 {
        MagicLookup { magic: 8578794375355328282, length: 11, offset: 153600 }
    } else if square == 62 {
        MagicLookup { magic: 16560931033644437548, length: 11, offset: 155648 }
    } else {
        MagicLookup { magic: 1821617319595737974, length: 12, offset: 157696 }
    }
}

pub fn rook_magic(square: u8) -> (r: MagicLookup)
    ensures
        r == rook_magic_entry(square as int),
{
    match square {
        0 => MagicLookup { magic: 17539749073859413632, length: 13, offset: 0 },
        1 => MagicLookup { magic: 18428168386530501225, length: 12, offset: 8192 },
        2 => MagicLookup { magic: 12702083310888480839, length: 12, offset: 12288 },
        3 => MagicLookup { magic: 3846109785921932284, length: 12, offset: 16384 },
        4 => MagicLookup { magic: 16861490204039056361, length: 12, offset: 20480 },
        5 => MagicLookup { magic: 9285291086477813540, length: 12, offset: 24576 },
        6 => MagicLookup { magic: 7429954234262713712, length: 12, offset: 28672 },
        7 => MagicLookup { magic: 3329005740130798227, length: 13, offset: 32768 },
        8 => MagicLookup { magic: 1298725636013758581, length: 12, offset: 40960 },
        9 => MagicLookup { magic: 9193095890061664258, length: 11, offset: 45056 },
        10 => MagicLookup { magic: 1319328018402494852, length: 11, offset: 47104 },
        11 => MagicLookup { magic: 2939137941690521164, length: 11, offset: 49152 },
        12 => MagicLookup { magic: 6064108122372835925, length: 11, offset: 51200 },
        13 => MagicLookup { magic: 13055278107152740950, length: 11, offset: 53248 },
        14 => MagicLookup { magic: 10035146660281323534, length: 10, offset: 55296 },
        15 => MagicLookup { magic: 3335759964198617856, length: 11, offset: 56320 },
        16 => MagicLookup { magic: 1004122965041884545, length: 12, offset: 58368 },
        17 => MagicLookup { magic: 4403068103255187912, length: 11, offset: 62464 },
        18 => MagicLookup { magic: 16208349368206360414, length: 11, offset: 64512 },
        19 => MagicLookup { magic: 6168229617208161888, length: 11, offset: 66560 },
        20 => MagicLookup { magic: 4016775631525709824, length: 11, offset: 68608 },
        21 => MagicLookup { magic: 9336123771319246053, length: 11, offset: 70656 },
        22 => MagicLookup { magic: 16811827459153922600, length: 10, offset: 72704 },
        23 => MagicLookup { magic: 15792393262197490695, length: 11, offset: 73728 },
        24 => MagicLookup { magic: 3330302892402002429, length: 12, offset: 75776 },
        25 => MagicLookup { magic: 15617419618970615812, length: 11, offset: 79872 },
        26 => MagicLookup { magic: 5005252727203154999, length: 11, offset: 81920 },
        27 => MagicLookup { magic: 6014342957716807168, length: 10, offset: 83968 },
        28 => MagicLookup { magic: 16547418057126236375, length: 11, offset: 84992 },
        29 => MagicLookup { magic: 9677004249293159488, length: 10, offset: 87040 },
        30 => MagicLookup { magic: 16799966458950257200, length: 10, offset: 88064 },
        31 => MagicLookup { magic: 3760757348168369551, length: 11, offset: 89088 },
        32 => MagicLookup { magic: 17903314760131816170, length: 12, offset: 91136 },
        33 => MagicLookup { magic: 14350903318476798948, length: 11, offset: 95232 },
        34 => MagicLookup { magic: 4735014135806558311, length: 11, offset: 97280 },
        35 => MagicLookup { magic: 2657793590518776756, length: 11, offset: 99328 },
        36 => MagicLookup { magic: 10407513077741261344, length: 10, offset: 101376 },
        37 => MagicLookup { magic: 7781325019400924169, length: 11, offset: 102400 },
        38 => MagicLookup { magic: 967948822200193046, length: 10, offset: 104448 },
        39 => MagicLookup { magic: 16990689051604418891, length: 11, offset: 105472 },
        40 => MagicLookup { magic: 13943104455253819376, length: 12, offset: 107520 },
        41 => MagicLookup { magic: 16726374042622762720, length: 11, offset: 111616 },
        42 => MagicLookup { magic: 4020995869991312101, length: 11, offset: 113664 },
        43 => MagicLookup { magic: 6443816560033073312, length: 11, offset: 115712 },
        44 => MagicLookup { magic: 12813145568846974906, length: 11, offset: 117760 },
        45 => MagicLookup { magic: 10290579580686138261, length: 11, offset: 119808 },
        46 => MagicLookup { magic: 8425920614473924656, length: 10, offset: 121856 },
        47 => MagicLookup { magic: 8404627409860952091, length: 11, offset: 122880 },
        48 => MagicLookup { magic: 6760168650055185920, length: 11, offset: 124928 },
        49 => MagicLookup { magic: 2862249266461106688, length: 10, offset: 126976 },
        50 => MagicLookup { magic: 6292234918110093824, length: 10, offset: 128000 },
        51 => MagicLookup { magic: 7559003079236952576, length: 10, offset: 129024 },
        52 => MagicLookup { magic: 3317000373142597633, length: 11, offset: 130048 },
        53 => MagicLookup { magic: 3002202615898640888, length: 11, offset: 132096 },
        54 => MagicLookup { magic: 17426459281259111424, length: 10, offset: 134144 },
        55 => MagicLookup { magic: 3500935622424859136, length: 11, offset: 135168 },
        56 => MagicLookup { magic: 17173581100111364293, length: 12, offset: 137216 },
        57 => MagicLookup { magic: 3398494792583266694, length: 11, offset: 141312 },
        58 => MagicLookup { magic: 16424199035247690098, length: 11, offset: 143360 },
        59 => MagicLookup { magic: 7127372050157055082, length: 12, offset: 145408 },
        60 => MagicLookup { magic: 12730666794481791482, length: 12, offset: 149504 },
        61 => MagicLookup { magic: 8578794375355328282, length: 11, offset: 153600 },
        62 => MagicLookup { magic: 16560931033644437548, length: 11, offset: 155648 },
        _ => MagicLookup { magic: 1821617319595737974, length: 12, offset: 157696 },
    }
}

/// The magic entry of the bishop table for the square of index `square`.
pub open spec fn bishop_magic_entry(square: int) -> MagicLookup {
    if square <= 0 {
        MagicLookup { magic: 1366898566665339138, length: 6, offset: 0 }
    } else if square == 1 {
        MagicLookup { magic: 4830191987871583564, length: 5, offset: 64 }
    } else if square == 2 {
        MagicLookup { magic: 16397677352899150309, length: 5, offset: 96 }
    } else if square == 3 {
        MagicLookup { magic: 4451843696377169575, length: 5, offset: 128 }
    } else if square == 4 {
        MagicLookup { magic: 10282857188858408109, length: 5, offset: 160 }
    } else if square == 5 {
        MagicLookup { magic: 2595485845829137617, length: 5, offset: 192 }
    } else if square == 6 {
        MagicLookup { magic: 2061523843168719409, length: 5, offset: 224 }
    } else if square == 7 {
        MagicLookup { magic: 1481255985310801776, length: 6, offset: 256 }
    } else if square == 8 {
        MagicLookup { magic: 15921971394886510728, length: 5, offset: 320 }
    } else if square == 9 {
        MagicLookup { magic: 15270357581212025218, length: 5, offset: 352 }
    } else if square == 10 {
        MagicLookup { magic: 7000159543455926366, length: 5, offset: 384 }
    } else if square == 11 {
        MagicLookup { magic: 14452653891298651526, length: 5, offset: 416 }
    } else if square == 12 {
        MagicLookup { magic: 18400876866511362692, length: 5, offset: 448 }
    } else if square == 13 {
        MagicLookup { magic: 8970147934190991857, length: 5, offset: 480 }
    } else if square == 14 {
        MagicLookup { magic: 16931357342619156650, length: 5, offset: 512 }
    } else if square == 15 {
        MagicLookup { magic: 4537329897815613641, length: 5, offset: 544 }
    } else if square == 16 {
        MagicLookup { magic: 14296756457248662553, length: 5, offset: 576 }
    } else if square == 17 {
        MagicLookup { magic: 8429682354882616653, length: 5, offset: 608 }
    } else if square == 18 {
        MagicLookup { magic: 94580505624233968, length: 7, offset: 640 }
    } else if square == 19 {
        MagicLookup { magic: 16449407002020532232, length: 7, offset: 768 }
    } else if square == 20 {
        MagicLookup { magic: 5896340019757713921, length: 7, offset: 896 }
    } else if square == 21 {
        MagicLookup { magic: 11942139000137320291, length: 7, offset: 1024 }
    } else if square == 22 {
        MagicLookup { magic: 17745320328850324510, length: 5, offset: 1152 }
    } else if square == 23 {
        MagicLookup { magic: 11142470959473894487, length: 5, offset: 1184 }
    } else if square == 24 {
        MagicLookup { magic: 17307403831492776218, length: 5, offset: 1216 }
    } else if square == 25 {
        MagicLookup { magic: 18399790855240030760, length: 5, offset: 1248 }
    } else if square == 26 {
        MagicLookup { magic: 768866500869834448, length: 7, offset: 1280 }
    } else if square == 27 {
        MagicLookup { magic: 6717006759734514951, length: 10, offset: 1408 }
    } else if square == 28 {
        MagicLookup { magic: 10652574429445382146, length: 9, offset: 2432 }
    } else if square == 29 {
        MagicLookup { magic: 4997593717075446425, length: 7, offset: 2944 }
    } else if square == 30 {
        MagicLookup { magic: 2340503621917603710, length: 5, offset: 3072 }
    } else if square == 31 {
        MagicLookup { magic: 3290167199918197786, length: 5, offset: 3104 }
    } else if square == 32 {
        MagicLookup { magic: 6084407214550590628, length: 5, offset: 3136 }
    } else if square == 33 {
        MagicLookup { magic: 17099117889692926955, length: 5, offset: 3168 }
    } else if square == 34 {
        MagicLookup { magic: 2716198547247071619, length: 7, offset: 3200 }
    } else if square == 35 {
        MagicLookup { magic: 16297154895310160156, length: 9, offset: 3328 }
    } else if square == 36 {
        MagicLookup { magic: 10686205762927433856, length: 10, offset: 3840 }
    } else if square == 37 {
        MagicLookup { magic: 4196510779984118017, length: 7, offset: 4864 }
    } else if square == 38 {
        MagicLookup { magic: 2691283413901051954, length: 5, offset: 4992 }
    } else if square == 39 {
        MagicLookup { magic: 16513633883365966608, length: 5, offset: 5024 }
    } else if square == 40 {
        MagicLookup { magic: 17704824500593495255, length: 5, offset: 5056 }
    } else if square == 41 {
        MagicLookup { magic: 1468395614774682645, length: 5, offset: 5088 }
    } else if square == 42 {
        MagicLookup { magic: 11221160759407579139, length: 7, offset: 5120 }
    } else if square == 43 {
        MagicLookup { magic: 13704507680420202498, length: 7, offset: 5248 }
    } else if square == 44 {
        MagicLookup { magic: 1882070414759508994, length: 7, offset: 5376 }
    } else if square == 45 {
        MagicLookup { magic: 10742820326401508865, length: 7, offset: 5504 }
    } else if square == 46 {
        MagicLookup { magic: 6905157357534723041, length: 5, offset: 5632 }
    } else if square == 47 {
        MagicLookup { magic: 618971222050478352, length: 5, offset: 5664 }
    } else if square == 48 {
        MagicLookup { magic: 16457858467383059897, length: 5, offset: 5696 }
    } else if square == 49 {
        MagicLookup { magic: 13926541888104957655, length: 5, offset: 5728 }
    } else if square == 50 {
        MagicLookup { magic: 14404845883347721614, length: 5, offset: 5760 }
    } else if square == 51 {
        MagicLookup { magic: 1128309078476963503, length: 5, offset: 5792 }
    } else if square == 52 {
        MagicLookup { magic: 2402301147746667501, length: 5, offset: 5824 }
    } else if square == 53 {
        MagicLookup { magic: 6892262353783690671, length: 5, offset: 5856 }
    } else if square == 54 {
        MagicLookup { magic: 3236984310253486117, length: 5, offset: 5888 }
    } else if square == 55 {
        MagicLookup { magic: 101674155388567759, length: 5, offset: 5920 }
    } else if square == 56 {
        MagicLookup { magic: 10061605016418374670, length: 6, offset: 5952 }
    } else if square == 57 {
        MagicLookup { magic: 4981570264122790094, length: 5, offset: 6016 }
    } else if square == 58 {
        MagicLookup { magic: 16863897654955575304, length: 5, offset: 6048 }
    } else if square == 59 {
        MagicLookup { magic: 16955468953262524469, length: 5, offset: 6080 }
    } else if square == 60 {
        MagicLookup { magic: 5268193513159124474, length: 5, offset: 6112 }
    } else if square == 61 {
        MagicLookup { magic: 1627423186726827527, length: 5, offset: 6144 }
    } else if square == 62 {
        MagicLookup { magic: 2878275765051851432, length: 5, offset: 6176 }
    } else {
        MagicLookup { magic: 10472127181420855554, length: 6, offset: 6208 }
    }
}

pub fn bishop_magic(square: u8) -> (r: MagicLookup)
    ensures
        r == bishop_magic_entry(square as int),
{
    match square {
        0 => MagicLookup { magic: 1366898566665339138, length: 6, offset: 0 },
        1 => MagicLookup { magic: 4830191987871583564, length: 5, offset: 64 },
        2 => MagicLookup { magic: 16397677352899150309, length: 5, offset: 96 },
        3 => MagicLookup { magic: 4451843696377169575, length: 5, offset: 128 },
        4 => MagicLookup { magic: 10282857188858408109, length: 5, offset: 160 },
        5 => MagicLookup { magic: 2595485845829137617, length: 5, offset: 192 },
        6 => MagicLookup { magic: 2061523843168719409, length: 5, offset: 224 },
        7 => MagicLookup { magic: 1481255985310801776, length: 6, offset: 256 },
        8 => MagicLookup { magic: 15921971394886510728, length: 5, offset: 320 },
        9 => MagicLookup { magic: 15270357581212025218, length: 5, offset: 352 },
        10 => MagicLookup { magic: 7000159543455926366, length: 5, offset: 384 },
        11 => MagicLookup { magic: 14452653891298651526, length: 5, offset: 416 },
        12 => MagicLookup { magic: 18400876866511362692, length: 5, offset: 448 },
        13 => MagicLookup { magic: 8970147934190991857, length: 5, offset: 480 },
        14 => MagicLookup { magic: 16931357342619156650, length: 5, offset: 512 },
        15 => MagicLookup { magic: 4537329897815613641, length: 5, offset: 544 },
        16 => MagicLookup { magic: 14296756457248662553, length: 5, offset: 576 },
        17 => MagicLookup { magic: 8429682354882616653, length: 5, offset: 608 },
        18 => MagicLookup { magic: 94580505624233968, length: 7, offset: 640 },
        19 => MagicLookup { magic: 16449407002020532232, length: 7, offset: 768 },
        20 => MagicLookup { magic: 5896340019757713921, length: 7, offset: 896 },
        21 => MagicLookup { magic: 11942139000137320291, length: 7, offset: 1024 },
        22 => MagicLookup { magic: 17745320328850324510, length: 5, offset: 1152 },
        23 => MagicLookup { magic: 11142470959473894487, length: 5, offset: 1184 },
        24 => MagicLookup { magic: 17307403831492776218, length: 5, offset: 1216 },
        25 => MagicLookup { magic: 18399790855240030760, length: 5, offset: 1248 },
        26 => MagicLookup { magic: 768866500869834448, length: 7, offset: 1280 },
        27 => MagicLookup { magic: 6717006759734514951, length: 10, offset: 1408 },
        28 => MagicLookup { magic: 10652574429445382146, length: 9, offset: 2432 },
        29 => MagicLookup { magic: 4997593717075446425, length: 7, offset: 2944 },
        30 => MagicLookup { magic: 2340503621917603710, length: 5, offset: 3072 },
        31 => MagicLookup { magic: 3290167199918197786, length: 5, offset: 3104 },
        32 => MagicLookup { magic: 6084407214550590628, length: 5, offset: 3136 },
        33 => MagicLookup { magic: 17099117889692926955, length: 5, offset: 3168 },
        34 => MagicLookup { magic: 2716198547247071619, length: 7, offset: 3200 },
        35 => MagicLookup { magic: 16297154895310160156, length: 9, offset: 3328 },
        36 => MagicLookup { magic: 10686205762927433856, length: 10, offset: 3840 },
        37 => MagicLookup { magic: 4196510779984118017, length: 7, offset: 4864 },
        38 => MagicLookup { magic: 2691283413901051954, length: 5, offset: 4992 },
        39 => MagicLookup { magic: 16513633883365966608, length: 5, offset: 5024 },
        40 => MagicLookup { magic: 17704824500593495255, length: 5, offset: 5056 },
        41 => MagicLookup { magic: 1468395614774682645, length: 5, offset: 5088 },
        42 => MagicLookup { magic: 11221160759407579139, length: 7, offset: 5120 },
        43 => MagicLookup { magic: 13704507680420202498, length: 7, offset: 5248 },
        44 => MagicLookup { magic: 1882070414759508994, length: 7, offset: 5376 },
        45 => MagicLookup { magic: 10742820326401508865, length: 7, offset: 5504 },
        46 => MagicLookup { magic: 6905157357534723041, length: 5, offset: 5632 },
        47 => MagicLookup { magic: 618971222050478352, length: 5, offset: 5664 },
        48 => MagicLookup { magic: 16457858467383059897, length: 5, offset: 5696 },
        49 => MagicLookup { magic: 13926541888104957655, length: 5, offset: 5728 },
        50 => MagicLookup { magic: 14404845883347721614, length: 5, offset: 5760 },
        51 => MagicLookup { magic: 1128309078476963503, length: 5, offset: 5792 },
        52 => MagicLookup { magic: 2402301147746667501, length: 5, offset: 5824 },
        53 => MagicLookup { magic: 6892262353783690671, length: 5, offset: 5856 },
        54 => MagicLookup { magic: 3236984310253486117, length: 5, offset: 5888 },
        55 => MagicLookup { magic: 101674155388567759, length: 5, offset: 5920 },
        56 => MagicLookup { magic: 10061605016418374670, length: 6, offset: 5952 },
        57 => MagicLookup { magic: 4981570264122790094, length: 5, offset: 6016 },
        58 => MagicLookup { magic: 16863897654955575304, length: 5, offset: 6048 },
        59 => MagicLookup { magic: 16955468953262524469, length: 5, offset: 6080 },
        60 => MagicLookup { magic: 5268193513159124474, length: 5, offset: 6112 },
        61 => MagicLookup { magic: 1627423186726827527, length: 5, offset: 6144 },
        62 => MagicLookup { magic: 2878275765051851432, length: 5, offset: 6176 },
        _ => MagicLookup { magic: 10472127181420855554, length: 6, offset: 6208 },
    }
}

} // verus!
