use vstd::prelude::*;
use crate::marching_cubes::table::{
    edge_crosses,
    entry_is_sound,
    row_is_complete,
    row_is_sound,
    row_names,
    table_entry,
    triangle_count,
};

verus! {

#[verifier::spinoff_prover]
#[verifier::rlimit(80)]
proof fn lemma_rows_from_0_are_sound()
    ensures
        forall|mask: int| 0 <= mask < 8 ==> row_is_sound(mask) && row_is_complete(mask),
{
    reveal(table_entry);
    assert(row_is_sound(0));
    assert(row_is_complete(0));
    assert(row_is_sound(1));
    assert(row_is_complete(1));
    assert(row_is_sound(2));
    assert(row_is_complete(2));
    assert(row_is_sound(3));
    assert(row_is_complete(3));
    assert(row_is_sound(4));
    assert(row_is_complete(4));
    assert(row_is_sound(5));
    assert(row_is_complete(5));
    assert(row_is_sound(6));
    assert(row_is_complete(6));
    assert(row_is_sound(7));
    assert(row_is_complete(7));
}

#[verifier::spinoff_prover]
#[verifier::rlimit(80)]
proof fn lemma_rows_from_8_are_sound()
    ensures
        forall|mask: int| 8 <= mask < 16 ==> row_is_sound(mask) && row_is_complete(mask),
{
    reveal(table_entry);
    assert(row_is_sound(8));
    assert(row_is_complete(8));
    assert(row_is_sound(9));
    assert(row_is_complete(9));
    assert(row_is_sound(10));
    assert(row_is_complete(10));
    assert(row_is_sound(11));
    assert(row_is_complete(11));
    assert(row_is_sound(12));
    assert(row_is_complete(12));
    assert(row_is_sound(13));
    assert(row_is_complete(13));
    assert(row_is_sound(14));
    assert(row_is_complete(14));
    assert(row_is_sound(15));
    assert(row_is_complete(15));
}

#[verifier::spinoff_prover]
#[verifier::rlimit(80)]
proof fn lemma_rows_from_16_are_sound()
    ensures
        forall|mask: int| 16 <= mask < 24 ==> row_is_sound(mask) && row_is_complete(mask),
{
    reveal(table_entry);
    assert(row_is_sound(16));
    assert(row_is_complete(16));
    assert(row_is_sound(17));
    assert(row_is_complete(17));
    assert(row_is_sound(18));
    assert(row_is_complete(18));
    assert(row_is_sound(19));
    assert(row_is_complete(19));
    assert(row_is_sound(20));
    assert(row_is_complete(20));
    assert(row_is_sound(21));
    assert(row_is_complete(21));
    assert(row_is_sound(22));
    assert(row_is_complete(22));
    assert(row_is_sound(23));
    assert(row_is_complete(23));
}

#[verifier::spinoff_prover]
#[verifier::rlimit(80)]
proof fn lemma_rows_from_24_are_sound()
    ensures
        forall|mask: int| 24 <= mask < 32 ==> row_is_sound(mask) && row_is_complete(mask),
{
    reveal(table_entry);
    assert(row_is_sound(24));
    assert(row_is_complete(24));
    assert(row_is_sound(25));
    assert(row_is_complete(25));
    assert(row_is_sound(26));
    assert(row_is_complete(26));
    assert(row_is_sound(27));
    assert(row_is_complete(27));
    assert(row_is_sound(28));
    assert(row_is_complete(28));
    assert(row_is_sound(29));
    assert(row_is_complete(29));
    assert(row_is_sound(30));
    assert(row_is_complete(30));
    assert(row_is_sound(31));
    assert(row_is_complete(31));
}

#[verifier::spinoff_prover]
#[verifier::rlimit(80)]
proof fn lemma_rows_from_32_are_sound()
    ensures
        forall|mask: int| 32 <= mask < 40 ==> row_is_sound(mask) && row_is_complete(mask),
{
    reveal(table_entry);
    assert(row_is_sound(32));
    assert(row_is_complete(32));
    assert(row_is_sound(33));
    assert(row_is_complete(33));
    assert(row_is_sound(34));
    assert(row_is_complete(34));
    assert(row_is_sound(35));
    assert(row_is_complete(35));
    assert(row_is_sound(36));
    assert(row_is_complete(36));
    assert(row_is_sound(37));
    assert(row_is_complete(37));
    assert(row_is_sound(38));
    assert(row_is_complete(38));
    assert(row_is_sound(39));
    assert(row_is_complete(39));
}

#[verifier::spinoff_prover]
#[verifier::rlimit(80)]
proof fn lemma_rows_from_40_are_sound()
    ensures
        forall|mask: int| 40 <= mask < 48 ==> row_is_sound(mask) && row_is_complete(mask),
{
    reveal(table_entry);
    assert(row_is_sound(40));
    assert(row_is_complete(40));
    assert(row_is_sound(41));
    assert(row_is_complete(41));
    assert(row_is_sound(42));
    assert(row_is_complete(42));
    assert(row_is_sound(43));
    assert(row_is_complete(43));
    assert(row_is_sound(44));
    assert(row_is_complete(44));
    assert(row_is_sound(45));
    assert(row_is_complete(45));
    assert(row_is_sound(46));
    assert(row_is_complete(46));
    assert(row_is_sound(47));
    assert(row_is_complete(47));
}

#[verifier::spinoff_prover]
#[verifier::rlimit(80)]
proof fn lemma_rows_from_48_are_sound()
    ensures
        forall|mask: int| 48 <= mask < 56 ==> row_is_sound(mask) && row_is_complete(mask),
{
    reveal(table_entry);
    assert(row_is_sound(48));
    assert(row_is_complete(48));
    assert(row_is_sound(49));
    assert(row_is_complete(49));
    assert(row_is_sound(50));
    assert(row_is_complete(50));
    assert(row_is_sound(51));
    assert(row_is_complete(51));
    assert(row_is_sound(52));
    assert(row_is_complete(52));
    assert(row_is_sound(53));
    assert(row_is_complete(53));
    assert(row_is_sound(54));
    assert(row_is_complete(54));
    assert(row_is_sound(55));
    assert(row_is_complete(55));
}

#[verifier::spinoff_prover]
#[verifier::rlimit(80)]
proof fn lemma_rows_from_56_are_sound()
    ensures
        forall|mask: int| 56 <= mask < 64 ==> row_is_sound(mask) && row_is_complete(mask),
{
    reveal(table_entry);
    assert(row_is_sound(56));
    assert(row_is_complete(56));
    assert(row_is_sound(57));
    assert(row_is_complete(57));
    assert(row_is_sound(58));
    assert(row_is_complete(58));
    assert(row_is_sound(59));
    assert(row_is_complete(59));
    assert(row_is_sound(60));
    assert(row_is_complete(60));
    assert(row_is_sound(61));
    assert(row_is_complete(61));
    assert(row_is_sound(62));
    assert(row_is_complete(62));
    assert(row_is_sound(63));
    assert(row_is_complete(63));
}

#[verifier::spinoff_prover]
#[verifier::rlimit(80)]
proof fn lemma_rows_from_64_are_sound()
    ensures
        forall|mask: int| 64 <= mask < 72 ==> row_is_sound(mask) && row_is_complete(mask),
{
    reveal(table_entry);
    assert(row_is_sound(64));
    assert(row_is_complete(64));
    assert(row_is_sound(65));
    assert(row_is_complete(65));
    assert(row_is_sound(66));
    assert(row_is_complete(66));
    assert(row_is_sound(67));
    assert(row_is_complete(67));
    assert(row_is_sound(68));
    assert(row_is_complete(68));
    assert(row_is_sound(69));
    assert(row_is_complete(69));
    assert(row_is_sound(70));
    assert(row_is_complete(70));
    assert(row_is_sound(71));
    assert(row_is_complete(71));
}

#[verifier::spinoff_prover]
#[verifier::rlimit(80)]
proof fn lemma_rows_from_72_are_sound()
    ensures
        forall|mask: int| 72 <= mask < 80 ==> row_is_sound(mask) && row_is_complete(mask),
{
    reveal(table_entry);
    assert(row_is_sound(72));
    assert(row_is_complete(72));
    assert(row_is_sound(73));
    assert(row_is_complete(73));
    assert(row_is_sound(74));
    assert(row_is_complete(74));
    assert(row_is_sound(75));
    assert(row_is_complete(75));
    assert(row_is_sound(76));
    assert(row_is_complete(76));
    assert(row_is_sound(77));
    assert(row_is_complete(77));
    assert(row_is_sound(78));
    assert(row_is_complete(78));
    assert(row_is_sound(79));
    assert(row_is_complete(79));
}

#[verifier::spinoff_prover]
#[verifier::rlimit(80)]
proof fn lemma_rows_from_80_are_sound()
    ensures
        forall|mask: int| 80 <= mask < 88 ==> row_is_sound(mask) && row_is_complete(mask),
{
    reveal(table_entry);
    assert(row_is_sound(80));
    assert(row_is_complete(80));
    assert(row_is_sound(81));
    assert(row_is_complete(81));
    assert(row_is_sound(82));
    assert(row_is_complete(82));
    assert(row_is_sound(83));
    assert(row_is_complete(83));
    assert(row_is_sound(84));
    assert(row_is_complete(84));
    assert(row_is_sound(85));
    assert(row_is_complete(85));
    assert(row_is_sound(86));
    assert(row_is_complete(86));
    assert(row_is_sound(87));
    assert(row_is_complete(87));
}

#[verifier::spinoff_prover]
#[verifier::rlimit(80)]
proof fn lemma_rows_from_88_are_sound()
    ensures
        forall|mask: int| 88 <= mask < 96 ==> row_is_sound(mask) && row_is_complete(mask),
{
    reveal(table_entry);
    assert(row_is_sound(88));
    assert(row_is_complete(88));
    assert(row_is_sound(89));
    assert(row_is_complete(89));
    assert(row_is_sound(90));
    assert(row_is_complete(90));
    assert(row_is_sound(91));
    assert(row_is_complete(91));
    assert(row_is_sound(92));
    assert(row_is_complete(92));
    assert(row_is_sound(93));
    assert(row_is_complete(93));
    assert(row_is_sound(94));
    assert(row_is_complete(94));
    assert(row_is_sound(95));
    assert(row_is_complete(95));
}

#[verifier::spinoff_prover]
#[verifier::rlimit(80)]
proof fn lemma_rows_from_96_are_sound()
    ensures
        forall|mask: int| 96 <= mask < 104 ==> row_is_sound(mask) && row_is_complete(mask),
{
    reveal(table_entry);
    assert(row_is_sound(96));
    assert(row_is_complete(96));
    assert(row_is_sound(97));
    assert(row_is_complete(97));
    assert(row_is_sound(98));
    assert(row_is_complete(98));
    assert(row_is_sound(99));
    assert(row_is_complete(99));
    assert(row_is_sound(100));
    assert(row_is_complete(100));
    assert(row_is_sound(101));
    assert(row_is_complete(101));
    assert(row_is_sound(102));
    assert(row_is_complete(102));
    assert(row_is_sound(103));
    assert(row_is_complete(103));
}

#[verifier::spinoff_prover]
#[verifier::rlimit(80)]
proof fn lemma_rows_from_104_are_sound()
    ensures
        forall|mask: int| 104 <= mask < 112 ==> row_is_sound(mask) && row_is_complete(mask),
{
    reveal(table_entry);
    assert(row_is_sound(104));
    assert(row_is_complete(104));
    assert(row_is_sound(105));
    assert(row_is_complete(105));
    assert(row_is_sound(106));
    assert(row_is_complete(106));
    assert(row_is_sound(107));
    assert(row_is_complete(107));
    assert(row_is_sound(108));
    assert(row_is_complete(108));
    assert(row_is_sound(109));
    assert(row_is_complete(109));
    assert(row_is_sound(110));
    assert(row_is_complete(110));
    assert(row_is_sound(111));
    assert(row_is_complete(111));
}

#[verifier::spinoff_prover]
#[verifier::rlimit(80)]
proof fn lemma_rows_from_112_are_sound()
    ensures
        forall|mask: int| 112 <= mask < 120 ==> row_is_sound(mask) && row_is_complete(mask),
{
    reveal(table_entry);
    assert(row_is_sound(112));
    assert(row_is_complete(112));
    assert(row_is_sound(113));
    assert(row_is_complete(113));
    assert(row_is_sound(114));
    assert(row_is_complete(114));
    assert(row_is_sound(115));
    assert(row_is_complete(115));
    assert(row_is_sound(116));
    assert(row_is_complete(116));
    assert(row_is_sound(117));
    assert(row_is_complete(117));
    assert(row_is_sound(118));
    assert(row_is_complete(118));
    assert(row_is_sound(119));
    assert(row_is_complete(119));
}

#[verifier::spinoff_prover]
#[verifier::rlimit(80)]
proof fn lemma_rows_from_120_are_sound()
    ensures
        forall|mask: int| 120 <= mask < 128 ==> row_is_sound(mask) && row_is_complete(mask),
{
    reveal(table_entry);
    assert(row_is_sound(120));
    assert(row_is_complete(120));
    assert(row_is_sound(121));
    assert(row_is_complete(121));
    assert(row_is_sound(122));
    assert(row_is_complete(122));
    assert(row_is_sound(123));
    assert(row_is_complete(123));
    assert(row_is_sound(124));
    assert(row_is_complete(124));
    assert(row_is_sound(125));
    assert(row_is_complete(125));
    assert(row_is_sound(126));
    assert(row_is_complete(126));
    assert(row_is_sound(127));
    assert(row_is_complete(127));
}

#[verifier::spinoff_prover]
#[verifier::rlimit(80)]
proof fn lemma_rows_from_128_are_sound()
    ensures
        forall|mask: int| 128 <= mask < 136 ==> row_is_sound(mask) && row_is_complete(mask),
{
    reveal(table_entry);
    assert(row_is_sound(128));
    assert(row_is_complete(128));
    assert(row_is_sound(129));
    assert(row_is_complete(129));
    assert(row_is_sound(130));
    assert(row_is_complete(130));
    assert(row_is_sound(131));
    assert(row_is_complete(131));
    assert(row_is_sound(132));
    assert(row_is_complete(132));
    assert(row_is_sound(133));
    assert(row_is_complete(133));
    assert(row_is_sound(134));
    assert(row_is_complete(134));
    assert(row_is_sound(135));
    assert(row_is_complete(135));
}

#[verifier::spinoff_prover]
#[verifier::rlimit(80)]
proof fn lemma_rows_from_136_are_sound()
    ensures
        forall|mask: int| 136 <= mask < 144 ==> row_is_sound(mask) && row_is_complete(mask),
{
    reveal(table_entry);
    assert(row_is_sound(136));
    assert(row_is_complete(136));
    assert(row_is_sound(137));
    assert(row_is_complete(137));
    assert(row_is_sound(138));
    assert(row_is_complete(138));
    assert(row_is_sound(139));
    assert(row_is_complete(139));
    assert(row_is_sound(140));
    assert(row_is_complete(140));
    assert(row_is_sound(141));
    assert(row_is_complete(141));
    assert(row_is_sound(142));
    assert(row_is_complete(142));
    assert(row_is_sound(143));
    assert(row_is_complete(143));
}

#[verifier::spinoff_prover]
#[verifier::rlimit(80)]
proof fn lemma_rows_from_144_are_sound()
    ensures
        forall|mask: int| 144 <= mask < 152 ==> row_is_sound(mask) && row_is_complete(mask),
{
    reveal(table_entry);
    assert(row_is_sound(144));
    assert(row_is_complete(144));
    assert(row_is_sound(145));
    assert(row_is_complete(145));
    assert(row_is_sound(146));
    assert(row_is_complete(146));
    assert(row_is_sound(147));
    assert(row_is_complete(147));
    assert(row_is_sound(148));
    assert(row_is_complete(148));
    assert(row_is_sound(149));
    assert(row_is_complete(149));
    assert(row_is_sound(150));
    assert(row_is_complete(150));
    assert(row_is_sound(151));
    assert(row_is_complete(151));
}

#[verifier::spinoff_prover]
#[verifier::rlimit(80)]
proof fn lemma_rows_from_152_are_sound()
    ensures
        forall|mask: int| 152 <= mask < 160 ==> row_is_sound(mask) && row_is_complete(mask),
{
    reveal(table_entry);
    assert(row_is_sound(152));
    assert(row_is_complete(152));
    assert(row_is_sound(153));
    assert(row_is_complete(153));
    assert(row_is_sound(154));
    assert(row_is_complete(154));
    assert(row_is_sound(155));
    assert(row_is_complete(155));
    assert(row_is_sound(156));
    assert(row_is_complete(156));
    assert(row_is_sound(157));
    assert(row_is_complete(157));
    assert(row_is_sound(158));
    assert(row_is_complete(158));
    assert(row_is_sound(159));
    assert(row_is_complete(159));
}

#[verifier::spinoff_prover]
#[verifier::rlimit(80)]
proof fn lemma_rows_from_160_are_sound()
    ensures
        forall|mask: int| 160 <= mask < 168 ==> row_is_sound(mask) && row_is_complete(mask),
{
    reveal(table_entry);
    assert(row_is_sound(160));
    assert(row_is_complete(160));
    assert(row_is_sound(161));
    assert(row_is_complete(161));
    assert(row_is_sound(162));
    assert(row_is_complete(162));
    assert(row_is_sound(163));
    assert(row_is_complete(163));
    assert(row_is_sound(164));
    assert(row_is_complete(164));
    assert(row_is_sound(165));
    assert(row_is_complete(165));
    assert(row_is_sound(166));
    assert(row_is_complete(166));
    assert(row_is_sound(167));
    assert(row_is_complete(167));
}

#[verifier::spinoff_prover]
#[verifier::rlimit(80)]
proof fn lemma_rows_from_168_are_sound()
    ensures
        forall|mask: int| 168 <= mask < 176 ==> row_is_sound(mask) && row_is_complete(mask),
{
    reveal(table_entry);
    assert(row_is_sound(168));
    assert(row_is_complete(168));
    assert(row_is_sound(169));
    assert(row_is_complete(169));
    assert(row_is_sound(170));
    assert(row_is_complete(170));
    assert(row_is_sound(171));
    assert(row_is_complete(171));
    assert(row_is_sound(172));
    assert(row_is_complete(172));
    assert(row_is_sound(173));
    assert(row_is_complete(173));
    assert(row_is_sound(174));
    assert(row_is_complete(174));
    assert(row_is_sound(175));
    assert(row_is_complete(175));
}

#[verifier::spinoff_prover]
#[verifier::rlimit(80)]
proof fn lemma_rows_from_176_are_sound()
    ensures
        forall|mask: int| 176 <= mask < 184 ==> row_is_sound(mask) && row_is_complete(mask),
{
    reveal(table_entry);
    assert(row_is_sound(176));
    assert(row_is_complete(176));
    assert(row_is_sound(177));
    assert(row_is_complete(177));
    assert(row_is_sound(178));
    assert(row_is_complete(178));
    assert(row_is_sound(179));
    assert(row_is_complete(179));
    assert(row_is_sound(180));
    assert(row_is_complete(180));
    assert(row_is_sound(181));
    assert(row_is_complete(181));
    assert(row_is_sound(182));
    assert(row_is_complete(182));
    assert(row_is_sound(183));
    assert(row_is_complete(183));
}

#[verifier::spinoff_prover]
#[verifier::rlimit(80)]
proof fn lemma_rows_from_184_are_sound()
    ensures
        forall|mask: int| 184 <= mask < 192 ==> row_is_sound(mask) && row_is_complete(mask),
{
    reveal(table_entry);
    assert(row_is_sound(184));
    assert(row_is_complete(184));
    assert(row_is_sound(185));
    assert(row_is_complete(185));
    assert(row_is_sound(186));
    assert(row_is_complete(186));
    assert(row_is_sound(187));
    assert(row_is_complete(187));
    assert(row_is_sound(188));
    assert(row_is_complete(188));
    assert(row_is_sound(189));
    assert(row_is_complete(189));
    assert(row_is_sound(190));
    assert(row_is_complete(190));
    assert(row_is_sound(191));
    assert(row_is_complete(191));
}

#[verifier::spinoff_prover]
#[verifier::rlimit(80)]
proof fn lemma_rows_from_192_are_sound()
    ensures
        forall|mask: int| 192 <= mask < 200 ==> row_is_sound(mask) && row_is_complete(mask),
{
    reveal(table_entry);
    assert(row_is_sound(192));
    assert(row_is_complete(192));
    assert(row_is_sound(193));
    assert(row_is_complete(193));
    assert(row_is_sound(194));
    assert(row_is_complete(194));
    assert(row_is_sound(195));
    assert(row_is_complete(195));
    assert(row_is_sound(196));
    assert(row_is_complete(196));
    assert(row_is_sound(197));
    assert(row_is_complete(197));
    assert(row_is_sound(198));
    assert(row_is_complete(198));
    assert(row_is_sound(199));
    assert(row_is_complete(199));
}

#[verifier::spinoff_prover]
#[verifier::rlimit(80)]
proof fn lemma_rows_from_200_are_sound()
    ensures
        forall|mask: int| 200 <= mask < 208 ==> row_is_sound(mask) && row_is_complete(mask),
{
    reveal(table_entry);
    assert(row_is_sound(200));
    assert(row_is_complete(200));
    assert(row_is_sound(201));
    assert(row_is_complete(201));
    assert(row_is_sound(202));
    assert(row_is_complete(202));
    assert(row_is_sound(203));
    assert(row_is_complete(203));
    assert(row_is_sound(204));
    assert(row_is_complete(204));
    assert(row_is_sound(205));
    assert(row_is_complete(205));
    assert(row_is_sound(206));
    assert(row_is_complete(206));
    assert(row_is_sound(207));
    assert(row_is_complete(207));
}

#[verifier::spinoff_prover]
#[verifier::rlimit(80)]
proof fn lemma_rows_from_208_are_sound()
    ensures
        forall|mask: int| 208 <= mask < 216 ==> row_is_sound(mask) && row_is_complete(mask),
{
    reveal(table_entry);
    assert(row_is_sound(208));
    assert(row_is_complete(208));
    assert(row_is_sound(209));
    assert(row_is_complete(209));
    assert(row_is_sound(210));
    assert(row_is_complete(210));
    assert(row_is_sound(211));
    assert(row_is_complete(211));
    assert(row_is_sound(212));
    assert(row_is_complete(212));
    assert(row_is_sound(213));
    assert(row_is_complete(213));
    assert(row_is_sound(214));
    assert(row_is_complete(214));
    assert(row_is_sound(215));
    assert(row_is_complete(215));
}

#[verifier::spinoff_prover]
#[verifier::rlimit(80)]
proof fn lemma_rows_from_216_are_sound()
    ensures
        forall|mask: int| 216 <= mask < 224 ==> row_is_sound(mask) && row_is_complete(mask),
{
    reveal(table_entry);
    assert(row_is_sound(216));
    assert(row_is_complete(216));
    assert(row_is_sound(217));
    assert(row_is_complete(217));
    assert(row_is_sound(218));
    assert(row_is_complete(218));
    assert(row_is_sound(219));
    assert(row_is_complete(219));
    assert(row_is_sound(220));
    assert(row_is_complete(220));
    assert(row_is_sound(221));
    assert(row_is_complete(221));
    assert(row_is_sound(222));
    assert(row_is_complete(222));
    assert(row_is_sound(223));
    assert(row_is_complete(223));
}

#[verifier::spinoff_prover]
#[verifier::rlimit(80)]
proof fn lemma_rows_from_224_are_sound()
    ensures
        forall|mask: int| 224 <= mask < 232 ==> row_is_sound(mask) && row_is_complete(mask),
{
    reveal(table_entry);
    assert(row_is_sound(224));
    assert(row_is_complete(224));
    assert(row_is_sound(225));
    assert(row_is_complete(225));
    assert(row_is_sound(226));
    assert(row_is_complete(226));
    assert(row_is_sound(227));
    assert(row_is_complete(227));
    assert(row_is_sound(228));
    assert(row_is_complete(228));
    assert(row_is_sound(229));
    assert(row_is_complete(229));
    assert(row_is_sound(230));
    assert(row_is_complete(230));
    assert(row_is_sound(231));
    assert(row_is_complete(231));
}

#[verifier::spinoff_prover]
#[verifier::rlimit(80)]
proof fn lemma_rows_from_232_are_sound()
    ensures
        forall|mask: int| 232 <= mask < 240 ==> row_is_sound(mask) && row_is_complete(mask),
{
    reveal(table_entry);
    assert(row_is_sound(232));
    assert(row_is_complete(232));
    assert(row_is_sound(233));
    assert(row_is_complete(233));
    assert(row_is_sound(234));
    assert(row_is_complete(234));
    assert(row_is_sound(235));
    assert(row_is_complete(235));
    assert(row_is_sound(236));
    assert(row_is_complete(236));
    assert(row_is_sound(237));
    assert(row_is_complete(237));
    assert(row_is_sound(238));
    assert(row_is_complete(238));
    assert(row_is_sound(239));
    assert(row_is_complete(239));
}

#[verifier::spinoff_prover]
#[verifier::rlimit(80)]
proof fn lemma_rows_from_240_are_sound()
    ensures
        forall|mask: int| 240 <= mask < 248 ==> row_is_sound(mask) && row_is_complete(mask),
{
    reveal(table_entry);
    assert(row_is_sound(240));
    assert(row_is_complete(240));
    assert(row_is_sound(241));
    assert(row_is_complete(241));
    assert(row_is_sound(242));
    assert(row_is_complete(242));
    assert(row_is_sound(243));
    assert(row_is_complete(243));
    assert(row_is_sound(244));
    assert(row_is_complete(244));
    assert(row_is_sound(245));
    assert(row_is_complete(245));
    assert(row_is_sound(246));
    assert(row_is_complete(246));
    assert(row_is_sound(247));
    assert(row_is_complete(247));
}

#[verifier::spinoff_prover]
#[verifier::rlimit(80)]
proof fn lemma_rows_from_248_are_sound()
    ensures
        forall|mask: int| 248 <= mask < 256 ==> row_is_sound(mask) && row_is_complete(mask),
{
    reveal(table_entry);
    assert(row_is_sound(248));
    assert(row_is_complete(248));
    assert(row_is_sound(249));
    assert(row_is_complete(249));
    assert(row_is_sound(250));
    assert(row_is_complete(250));
    assert(row_is_sound(251));
    assert(row_is_complete(251));
    assert(row_is_sound(252));
    assert(row_is_complete(252));
    assert(row_is_sound(253));
    assert(row_is_complete(253));
    assert(row_is_sound(254));
    assert(row_is_complete(254));
    assert(row_is_sound(255));
    assert(row_is_complete(255));
}

/// Every row of the case table holds at most five whole triangles, is
/// closed by `-1`, and names exactly the edges, numbered from 0 to 11, that
/// the surface crosses in a cell of the row's pattern: none else, and each
/// of them.
pub proof fn lemma_table_is_sound(mask: int)
    requires
        0 <= mask < 256,
    ensures
        row_is_sound(mask),
        row_is_complete(mask),
        0 <= triangle_count(mask) <= 5,
        forall|k: int| 0 <= k < 16 ==> entry_is_sound(mask, k),
        forall|edge: int|
            0 <= edge < 12 && edge_crosses(mask, edge) ==> #[trigger] row_names(mask, edge),
{
    lemma_rows_from_0_are_sound();
    lemma_rows_from_8_are_sound();
    lemma_rows_from_16_are_sound();
    lemma_rows_from_24_are_sound();
    lemma_rows_from_32_are_sound();
    lemma_rows_from_40_are_sound();
    lemma_rows_from_48_are_sound();
    lemma_rows_from_56_are_sound();
    lemma_rows_from_64_are_sound();
    lemma_rows_from_72_are_sound();
    lemma_rows_from_80_are_sound();
    lemma_rows_from_88_are_sound();
    lemma_rows_from_96_are_sound();
    lemma_rows_from_104_are_sound();
    lemma_rows_from_112_are_sound();
    lemma_rows_from_120_are_sound();
    lemma_rows_from_128_are_sound();
    lemma_rows_from_136_are_sound();
    lemma_rows_from_144_are_sound();
    lemma_rows_from_152_are_sound();
    lemma_rows_from_160_are_sound();
    lemma_rows_from_168_are_sound();
    lemma_rows_from_176_are_sound();
    lemma_rows_from_184_are_sound();
    lemma_rows_from_192_are_sound();
    lemma_rows_from_200_are_sound();
    lemma_rows_from_208_are_sound();
    lemma_rows_from_216_are_sound();
    lemma_rows_from_224_are_sound();
    lemma_rows_from_232_are_sound();
    lemma_rows_from_240_are_sound();
    lemma_rows_from_248_are_sound();
    assert(row_is_sound(mask) && row_is_complete(mask));
    assert forall|edge: int| 0 <= edge < 12 && edge_crosses(mask, edge) implies #[trigger] row_names(
        mask,
        edge,
    ) by {
        assert(edge == 0 || edge == 1 || edge == 2 || edge == 3 || edge == 4 || edge == 5 || edge
            == 6 || edge == 7 || edge == 8 || edge == 9 || edge == 10 || edge == 11);
    }
    assert forall|k: int| 0 <= k < 16 implies entry_is_sound(mask, k) by {
        assert(k == 0 || k == 1 || k == 2 || k == 3 || k == 4 || k == 5 || k == 6 || k == 7 || k
            == 8 || k == 9 || k == 10 || k == 11 || k == 12 || k == 13 || k == 14 || k == 15);
    }
}

} // verus!
