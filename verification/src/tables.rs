use vstd::prelude::*;

verus! {

/// Rounds defined by the algorithm; a round count above this has no
/// round constants and is rejected at construction.
pub const NUM_ROUNDS: usize = 24;

/// Trits of the state exposed to absorb and squeeze.
pub const TROIKA_RATE: usize = 243;

/// Columns per slice of the state cube.
pub const COLUMNS: usize = 9;

/// Rows per slice of the state cube.
pub const ROWS: usize = 3;

/// Depth slices of the state cube.
pub const SLICES: usize = 27;

/// Cells per slice.
pub const SLICESIZE: usize = 27;

/// Cells of the whole state: 27 slices of 3 rows by 9 columns.
pub const STATE_SIZE: usize = 729;

/// Source index of each cell under the fused row- and lane-shuffle that
/// the diffusion layer applies before summing column parities.
pub const SHIFT_ROWS_LANES: [usize; 729] = [
    216, 379, 164, 462, 85, 329, 681, 493, 656, 366, 16, 584, 603, 712, 65, 147, 121, 203, 561,
    292, 50, 429, 538, 269, 315, 451, 641, 243, 406, 191, 489, 112, 356, 708, 520, 683, 393, 43,
    611, 630, 10, 92, 174, 148, 230, 588, 319, 77, 456, 565, 296, 342, 478, 668, 270, 433, 218,
    516, 139, 383, 6, 547, 710, 420, 70, 638, 657, 37, 119, 201, 175, 257, 615, 346, 104, 483, 592,
    323, 369, 505, 695, 297, 460, 245, 543, 166, 410, 33, 574, 8, 447, 97, 665, 684, 64, 146, 228,
    202, 284, 642, 373, 131, 510, 619, 350, 396, 532, 722, 324, 487, 272, 570, 193, 437, 60, 601,
    35, 474, 124, 692, 711, 91, 173, 255, 229, 311, 669, 400, 158, 537, 646, 377, 423, 559, 20,
    351, 514, 299, 597, 220, 464, 87, 628, 62, 501, 151, 719, 9, 118, 200, 282, 256, 338, 696, 427,
    185, 564, 673, 404, 450, 586, 47, 378, 541, 326, 624, 247, 491, 114, 655, 89, 528, 178, 17, 36,
    145, 227, 309, 283, 365, 723, 454, 212, 591, 700, 431, 477, 613, 74, 405, 568, 353, 651, 274,
    518, 141, 682, 116, 555, 205, 44, 63, 172, 254, 336, 310, 392, 21, 481, 239, 618, 727, 458,
    504, 640, 101, 432, 595, 380, 678, 301, 545, 168, 709, 143, 582, 232, 71, 90, 199, 281, 363,
    337, 419, 48, 508, 266, 645, 25, 485, 531, 667, 128, 459, 622, 407, 705, 328, 572, 195, 7, 170,
    609, 259, 98, 117, 226, 308, 390, 364, 446, 75, 535, 293, 672, 52, 512, 558, 694, 155, 486,
    649, 434, 3, 355, 599, 222, 34, 197, 636, 286, 125, 144, 253, 335, 417, 391, 473, 102, 562,
    320, 699, 79, 539, 585, 721, 182, 513, 676, 461, 30, 382, 626, 249, 61, 224, 663, 313, 152,
    171, 280, 362, 444, 418, 500, 129, 589, 347, 726, 106, 566, 612, 19, 209, 540, 703, 488, 57,
    409, 653, 276, 88, 251, 690, 340, 179, 198, 307, 389, 471, 445, 527, 156, 616, 374, 24, 133,
    593, 639, 46, 236, 567, 1, 515, 84, 436, 680, 303, 115, 278, 717, 367, 206, 225, 334, 416, 498,
    472, 554, 183, 643, 401, 51, 160, 620, 666, 73, 263, 594, 28, 542, 111, 463, 707, 330, 142,
    305, 15, 394, 233, 252, 361, 443, 525, 499, 581, 210, 670, 428, 78, 187, 647, 693, 100, 290,
    621, 55, 569, 138, 490, 5, 357, 169, 332, 42, 421, 260, 279, 388, 470, 552, 526, 608, 237, 697,
    455, 105, 214, 674, 720, 127, 317, 648, 82, 596, 165, 517, 32, 384, 196, 359, 69, 448, 287,
    306, 415, 497, 579, 553, 635, 264, 724, 482, 132, 241, 701, 18, 154, 344, 675, 109, 623, 192,
    544, 59, 411, 223, 386, 96, 475, 314, 333, 442, 524, 606, 580, 662, 291, 22, 509, 159, 268,
    728, 45, 181, 371, 702, 136, 650, 219, 571, 86, 438, 250, 413, 123, 502, 341, 360, 469, 551,
    633, 607, 689, 318, 49, 536, 186, 295, 26, 72, 208, 398, 0, 163, 677, 246, 598, 113, 465, 277,
    440, 150, 529, 368, 387, 496, 578, 660, 634, 716, 345, 76, 563, 213, 322, 53, 99, 235, 425, 27,
    190, 704, 273, 625, 140, 492, 304, 467, 177, 556, 395, 414, 523, 605, 687, 661, 14, 372, 103,
    590, 240, 349, 80, 126, 262, 452, 54, 217, 2, 300, 652, 167, 519, 331, 494, 204, 583, 422, 441,
    550, 632, 714, 688, 41, 399, 130, 617, 267, 376, 107, 153, 289, 479, 81, 244, 29, 327, 679,
    194, 546, 358, 521, 231, 610, 449, 468, 577, 659, 12, 715, 68, 426, 157, 644, 294, 403, 134,
    180, 316, 506, 108, 271, 56, 354, 706, 221, 573, 385, 548, 258, 637, 476, 495, 604, 686, 39,
    13, 95, 453, 184, 671, 321, 430, 161, 207, 343, 533, 135, 298, 83, 381, 4, 248, 600, 412, 575,
    285, 664, 503, 522, 631, 713, 66, 40, 122, 480, 211, 698, 348, 457, 188, 234, 370, 560, 162,
    325, 110, 408, 31, 275, 627, 439, 602, 312, 691, 530, 549, 658, 11, 93, 67, 149, 507, 238, 725,
    375, 484, 215, 261, 397, 587, 189, 352, 137, 435, 58, 302, 654, 466, 629, 339, 718, 557, 576,
    685, 38, 120, 94, 176, 534, 265, 23, 402, 511, 242, 288, 424, 614,
];

/// Round constants for the first row of every slice, as two bitmasks
/// per round and column: bit `s` of the first mask asks slice `s` for
/// an increment, bit `s` of the second for a decrement.
pub const FROUND_CONSTANTS: [[[u32; 2]; 9]; 24] = [
    [
        [119734530, 1610953],
        [5749794, 34095441],
        [8585540, 55080601],
        [37884008, 77409799],
        [54010117, 84576],
        [1516630, 113295913],
        [67149892, 28728632],
        [18946819, 46269656],
        [71707578, 53494784],
    ],
    [
        [16777439, 103161856],
        [106015553, 10769436],
        [21266449, 11549090],
        [25182214, 106707976],
        [3511622, 21651481],
        [99250704, 98573],
        [86049024, 8946816],
        [115430790, 18522649],
        [34802142, 90448384],
    ],
    [
        [52954114, 4518880],
        [42049594, 69225857],
        [64652, 119014242],
        [2361764, 79725587],
        [11788385, 71306002],
        [104925460, 18936387],
        [126091277, 7368848],
        [50448421, 76157720],
        [8389632, 69472985],
    ],
    [
        [5267465, 119801412],
        [219376, 96215813],
        [69452824, 31209699],
        [2458688, 26900536],
        [9216196, 23217449],
        [9479304, 84560389],
        [14721540, 118622586],
        [18134123, 33751056],
        [17839280, 8454144],
    ],
    [
        [50535754, 83100304],
        [77465099, 56709376],
        [3229283, 54835588],
        [111780009, 4473088],
        [78153311, 1384832],
        [2200712, 85617187],
        [3410924, 71341072],
        [75661345, 34434134],
        [56763059, 69011456],
    ],
    [
        [111543554, 1650793],
        [16908812, 37251073],
        [104910882, 1517085],
        [26041368, 103842404],
        [48022528, 2229055],
        [54104125, 71320960],
        [35722818, 93087928],
        [84559900, 3190850],
        [27582482, 37816716],
    ],
    [
        [68786250, 54928432],
        [3686682, 63278693],
        [70045, 100557312],
        [38150276, 94408058],
        [46798629, 2394242],
        [1202190, 8988112],
        [34308201, 94384916],
        [17518227, 3145772],
        [973329, 136],
    ],
    [
        [56633740, 8765490],
        [68419770, 749061],
        [100942913, 23267584],
        [79923980, 51667986],
        [41853745, 25172098],
        [39327896, 75776000],
        [44671808, 68175902],
        [2245138, 13929772],
        [33650945, 79037966],
    ],
    [
        [270473, 90363412],
        [72887432, 25346582],
        [100829319, 16593224],
        [40087630, 68684337],
        [6369457, 110496512],
        [4784407, 25472000],
        [33891012, 79219770],
        [53838530, 8936492],
        [68643936, 525057],
    ],
    [
        [102302534, 16841864],
        [50364433, 75530210],
        [84025378, 41014464],
        [25225495, 102827176],
        [4194888, 1050917],
        [84026756, 39440496],
        [2102125, 76284930],
        [219, 101056512],
        [100738441, 5820436],
    ],
    [
        [10228162, 67365944],
        [5235808, 8393488],
        [51989651, 2228780],
        [16847505, 76433508],
        [67651608, 33591874],
        [69017778, 35784448],
        [33587208, 76568885],
        [117440518, 4257472],
        [96273297, 154690],
    ],
    [
        [124317824, 1508111],
        [34873472, 98616918],
        [111182400, 1330494],
        [69374511, 54871056],
        [27626369, 38929480],
        [37879972, 26052698],
        [71587392, 44040194],
        [14000288, 2101064],
        [35672064, 97980170],
    ],
    [
        [81296, 47317509],
        [38469910, 25472072],
        [29738560, 36700214],
        [3267745, 117973262],
        [97993472, 528537],
        [84567940, 13731898],
        [77335148, 21041296],
        [51463726, 6724033],
        [1116193, 23601996],
    ],
    [
        [80396928, 18153737],
        [117581700, 10059826],
        [21505356, 101124275],
        [23679023, 42993616],
        [103681057, 4268108],
        [72885098, 18914433],
        [97846858, 2627621],
        [8422144, 104538235],
        [83948099, 40176916],
    ],
    [
        [6928902, 67256433],
        [67184746, 41588096],
        [69355878, 38529],
        [41473220, 67313922],
        [50647688, 4336995],
        [92288643, 248148],
        [12134919, 37884008],
        [35146408, 2601044],
        [9423489, 17835048],
    ],
    [
        [68231686, 6477024],
        [57284529, 8398852],
        [69316740, 34996770],
        [33696260, 24642995],
        [46333986, 85212492],
        [54665779, 12422144],
        [47791116, 311458],
        [44671584, 72368411],
        [2773762, 29428924],
    ],
    [
        [70976736, 62972703],
        [123864709, 10004498],
        [4202128, 11157861],
        [4859922, 61129797],
        [43331726, 69782577],
        [83935362, 49559848],
        [18875398, 1355904],
        [34433676, 78808178],
        [106038508, 27888147],
    ],
    [
        [4627260, 33570944],
        [4538630, 121155721],
        [9245346, 117613917],
        [33571009, 29853970],
        [2392559, 43652096],
        [93343744, 37793194],
        [17309712, 36148998],
        [3276900, 118312456],
        [101315856, 5638796],
    ],
    [
        [1587272, 132514822],
        [4229205, 77297034],
        [5767570, 84216428],
        [110247047, 21528952],
        [125878920, 7743841],
        [42033186, 73801480],
        [8388866, 2699881],
        [127159080, 2240724],
        [17324188, 112468544],
    ],
    [
        [34341913, 91345154],
        [105251840, 2623560],
        [4798982, 10634481],
        [39389184, 84174433],
        [88113152, 8667000],
        [34284722, 329],
        [39360568, 67200132],
        [6844996, 58720546],
        [104799233, 29368426],
    ],
    [
        [51429916, 80362691],
        [88855204, 262411],
        [8655522, 71558228],
        [17838342, 11076784],
        [92751916, 1577424],
        [33559104, 8931338],
        [1055746, 99418513],
        [85018341, 39885072],
        [63800, 120587968],
    ],
    [
        [5517104, 84070467],
        [118067364, 5522242],
        [39922643, 68435980],
        [73796250, 35144996],
        [2528811, 37838868],
        [37880008, 17144593],
        [21317458, 112754688],
        [113268098, 20677181],
        [2597136, 47730886],
    ],
    [
        [68438280, 50397942],
        [59853500, 68030786],
        [1475096, 41965991],
        [85852370, 37775145],
        [1071361, 44113962],
        [68040205, 62931234],
        [5847109, 78005290],
        [34465024, 12720668],
        [71860611, 44513824],
    ],
    [
        [109057155, 3197812],
        [2396909, 16843778],
        [67383952, 31605828],
        [70387369, 37875732],
        [119275955, 28228],
        [34079753, 73679286],
        [50603056, 71422530],
        [10385546, 86017108],
        [227426, 12060561],
    ],
];

} // verus!
