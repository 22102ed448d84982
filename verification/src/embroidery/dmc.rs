//! The table of the DMC threads.

use crate::embroidery::colors::{DmcColor, LabColor, RgbColor};
use vstd::prelude::*;

verus! {

/// The number of threads in the DMC table.
pub const DMC_LEN: usize = 487;

/// The DMC threads: red, green, blue, the keys of the colour's L, a and b
/// coordinates, and the thread's name. Eight colours occur under two names.
pub const RGB_TO_DMC: [(u8, u8, u8, i32, i32, i32, &'static str); 487] = [
    (255, 255, 255, 1120403456, 0, 0, "B5200"),
    (243, 206, 205, 1118543451, 1095563994, 1084924849, "3713"),
    (234, 184, 185, 1117677296, 1100039696, 1087186249, "761"),
    (210, 140, 142, 1115853791, 1104629071, 1092510982, "760"),
    (189, 104, 104, 1112992500, 1107781492, 1098015770, "3712"),
    (167, 74, 74, 1110354672, 1108953664, 1100407562, "3328"),
    (146, 32, 42, 1107429431, 1111261789, 1102952352, "347"),
    (242, 193, 176, 1118033891, 1097942682, 1098091844, "353"),
    (217, 134, 118, 1115717856, 1106279259, 1102097640, "352"),
    (181, 73, 61, 1110844396, 1110196054, 1105972646, "351"),
    (166, 50, 42, 1109085198, 1111219820, 1107311395, "350"),
    (149, 10, 30, 1106833964, 1112742558, 1106149890, "349"),
    (143, 1, 21, 1105829120, 1112612847, 1107519005, "817"),
    (234, 155, 175, 1116766237, 1107338953, 1072302908, "3708"),
    (224, 123, 141, 1115499354, 1109644937, 1090232649, "3706"),
    (193, 68, 80, 1111240002, 1112217414, 1101257518, "3705"),
    (182, 46, 59, 1109802069, 1113182210, 1104057137, "3801"),
    (152, 0, 21, 1106869848, 1113268839, 1108191871, "666"),
    (126, 0, 24, 1103766666, 1111504988, 1104034499, "321"),
    (127, 0, 45, 1104082244, 1111836171, 1095168588, "304"),
    (103, 0, 26, 1100940898, 1109911836, 1099335146, "498"),
    (110, 0, 29, 1101841506, 1110443086, 1099541137, "816"),
    (81, 0, 28, 1097427422, 1108375468, 1089407512, "815"),
    (70, 4, 27, 1095138348, 1106970399, 1083777518, "814"),
    (232, 152, 173, 1116642246, 1107494640, 1069828208, "894"),
    (210, 99, 124, 1113632480, 1111018960, 1088996974, "893"),
    (203, 78, 93, 1112175994, 1112210000, 1099820652, "892"),
    (193, 57, 85, 1110842298, 1113473656, 1098271176, "891"),
    (247, 212, 211, 1118799015, 1094742182, 1084263649, "818"),
    (233, 153, 178, 1116703742, 1107634359, -1057672400, "957"),
    (211, 93, 134, 1113452250, 1112157218, 1054351392, "956"),
    (145, 50, 68, 1108197641, 1109777695, 1093497413, "309"),
    (244, 203, 208, 1118470283, 1098078870, 1077692916, "963"),
    (228, 170, 186, 1117168687, 1102901243, 1043164384, "3716"),
    (199, 128, 147, 1114999264, 1106249790, 1067705508, "962"),
    (191, 100, 127, 1112993638, 1109230328, 1070798208, "961"),
    (194, 111, 128, 1113714744, 1108025226, 1084413899, "3833"),
    (177, 71, 93, 1110742144, 1110732523, 1092117788, "3832"),
    (144, 37, 59, 1107576642, 1110913109, 1096167907, "3831"),
    (95, 2, 36, 1100157302, 1109362992, 1089179549, "777"),
    (252, 230, 222, 1119462781, 1086732199, 1087601149, "819"),
    (227, 165, 175, 1116964705, 1103255978, 1081832916, "3326"),
    (129, 74, 126, 1109314944, 1107143493, -1100816909, "776"),
    (199, 113, 138, 1114069114, 1108563632, 1067921408, "899"),
    (183, 84, 112, 1111748016, 1110155093, 1080319866, "335"),
    (122, 0, 46, 1103496060, 1111519992, 1092658026, "326"),
    (232, 187, 196, 1117782172, 1099703087, 1070424608, "151"),
    (215, 159, 172, 1116605603, 1102420931, 1069163408, "3354"),
    (193, 122, 141, 1114411270, 1106358009, 1068508208, "3733"),
    (170, 78, 107, 1110891119, 1109598984, 1070566008, "3731"),
    (136, 44, 74, 1107554850, 1109836531, 1079073116, "3350"),
    (117, 19, 51, 1103742430, 1110168074, 1088577474, "150"),
    (231, 191, 205, 1117926730, 1099160868, -1070756508, "3689"),
    (186, 129, 152, 1114703230, 1103854978, -1079675166, "3688"),
    (162, 90, 118, 1111325235, 1107569281, -1076951916, "3687"),
    (108, 42, 71, 1104974554, 1107472269, -1079012666, "3803"),
    (83, 13, 43, 1099430192, 1107768128, -1024807168, "3685"),
    (233, 189, 206, 1117891690, 1100173790, -1076059966, "605"),
    (226, 166, 190, 1117033900, 1103979493, -1080262966, "604"),
    (210, 132, 165, 1115697728, 1107935187, -1083899374, "603"),
    (187, 84, 129, 1112037844, 1111056703, -1084139074, "602"),
    (165, 48, 97, 1109273644, 1112424273, -1067718658, "601"),
    (147, 25, 80, 1107525070, 1112622105, -1057785200, "600"),
    (212, 140, 172, 1115988394, 1107247837, -1085262499, "3806"),
    (176, 73, 126, 1111049033, 1111401210, -1091516157, "3805"),
    (167, 57, 112, 1109841528, 1112079250, -1089289374, "3804"),
    (221, 181, 210, 1117509211, 1100592087, -1091726670, "3609"),
    (201, 148, 183, 1116116092, 1103884181, -1092978107, "3608"),
    (156, 76, 141, 1110563272, 1109955617, -1101591359, "3607"),
    (132, 27, 97, 1106650162, 1111936699, -1097949420, "718"),
    (137, 40, 103, 1107714900, 1111293195, -1097361957, "917"),
    (86, 0, 43, 1099050176, 1109051836, -1065505758, "915"),
    (238, 207, 201, 1118504822, 1092488901, 1088365724, "225"),
    (211, 169, 163, 1116839152, 1097281651, 1091498544, "224"),
    (195, 149, 148, 1115938128, 1099488759, 1088882574, "152"),
    (153, 94, 101, 1111124265, 1103625649, 1086816449, "223"),
    (140, 78, 82, 1109558279, 1104405946, 1091712744, "3722"),
    (121, 53, 55, 1107060326, 1106186884, 1095996082, "3721"),
    (99, 28, 33, 1102199830, 1107362582, 1097666576, "221"),
    (204, 168, 170, 1116741089, 1096238338, 1081805016, "778"),
    (196, 158, 169, 1116312840, 1098718182, -1052543392, "3727"),
    (172, 131, 150, 1114417280, 1100390618, -1082230199, "316"),
    (135, 86, 94, 1109964312, 1101770212, 1081497566, "3726"),
    (106, 56, 65, 1106297542, 1102709228, 1082838212, "315"),
    (85, 35, 49, 1101746476, 1103543446, 1074518641, "3802"),
    (94, 13, 34, 1100561908, 1108456175, 1092417451, "902"),
    (195, 188, 196, 1117390569, 1081783091, -1078565566, "3743"),
    (163, 153, 165, 1115736192, 1086152949, -1084111599, "3042"),
    (114, 92, 106, 1109824907, 1094238901, -1083352049, "3041"),
    (85, 60, 72, 1105441300, 1095924807, -1077820141, "3740"),
    (163, 138, 164, 1114758522, 1096998744, -1092844082, "3836"),
    (119, 87, 121, 1109761651, 1100756181, -1096886982, "3835"),
    (74, 39, 72, 1101784344, 1102152845, -1096457144, "3834"),
    (37, 3, 31, 1084301528, 1101232235, -1092624591, "154"),
    (204, 194, 222, 1117783018, 1091301494, -1095411882, "211"),
    (178, 165, 205, 1116474386, 1095287057, -1100301465, "210"),
    (149, 131, 180, 1114101132, 1099348149, -1102719065, "209"),
    (111, 84, 151, 1109693209, 1104017134, -1107486817, "208"),
    (84, 58, 130, 1106611662, 1105348454, -1108516504, "3837"),
    (89, 62, 99, 1106545844, 1100612774, -1099554528, "327"),
    (208, 187, 211, 1117553896, 1094420932, -1091892370, "153"),
    (182, 158, 190, 1116223126, 1097524901, -1095985370, "554"),
    (122, 95, 150, 1110697649, 1102202634, -1104176715, "553"),
    (101, 70, 127, 1108176935, 1103683915, -1104820184, "552"),
    (53, 13, 71, 1095349012, 1106342567, -1104793610, "550"),
    (200, 206, 218, 1118127787, 1048729392, -1087671374, "3747"),
    (156, 175, 201, 1116580400, -1063623000, -1098273607, "341"),
    (129, 151, 186, 1115147608, 1057627500, -1101369759, "156"),
    (119, 131, 180, 1113465038, 1089530074, -1104785584, "340"),
    (120, 127, 178, 1113177134, 1092241588, -1105072652, "155"),
    (85, 95, 154, 1109896707, 1095040557, -1107677142, "3746"),
    (60, 62, 129, 1105927142, 1100623040, -1108934481, "333"),
    (165, 187, 207, 1117107357, -1078855466, -1095313607, "157"),
    (132, 160, 186, 1115768354, -1080425841, -1099219596, "794"),
    (102, 124, 156, 1112389056, 1037026176, -1100882678, "793"),
    (73, 93, 137, 1109305843, 1084265074, -1104584821, "3807"),
    (49, 77, 130, 1107578061, 1088682324, -1107565407, "792"),
    (43, 64, 108, 1104921580, 1087247512, -1105269434, "158"),
    (12, 37, 87, 1098853726, 1094337026, -1107544500, "791"),
    (167, 193, 217, 1117375571, -1080301091, -1097763270, "3840"),
    (116, 144, 187, 1114427034, 1065562858, -1103913534, "3839"),
    (91, 121, 170, 1112133548, 1077261591, -1105972365, "3838"),
    (167, 194, 213, 1117394350, -1084220074, -1095271282, "800"),
    (119, 135, 160, 1113554776, 1022104960, -1098072507, "809"),
    (102, 140, 175, 1113786292, -1081618341, -1102344609, "799"),
    (48, 101, 152, 1109795858, -1054276392, -1107559132, "798"),
    (29, 65, 121, 1105148898, 1090666776, -1108271131, "797"),
    (0, 42, 101, 1100136474, 1095781573, -1108963206, "796"),
    (0, 26, 83, 1094409298, 1099420142, -1108652295, "820"),
    (200, 219, 223, 1118586927, -1085367199, -1082397974, "162"),
    (172, 200, 213, 1117647462, -1087617512, -1092212257, "827"),
    (124, 163, 186, 1115813485, -1089691386, -1098971409, "813"),
    (78, 127, 162, 1112318674, -1087130324, -1102991446, "826"),
    (6, 83, 123, 1107624744, -1084889105, -1105460846, "825"),
    (0, 60, 103, 1103288494, 1063421000, -1106233171, "824"),
    (58, 171, 209, 1115875823, -1100561696, -1105415828, "996"),
    (0, 136, 183, 1112795376, -1096483151, -1107615851, "3843"),
    (0, 123, 175, 1111644058, -1091857713, -1108212104, "995"),
    (56, 196, 211, 1116852159, -1106954181, -1100027552, "3846"),
    (0, 171, 189, 1115684028, -1106197478, -1100801315, "3845"),
    (0, 136, 161, 1112549684, -1101879743, -1102057078, "3844"),
    (166, 173, 190, 1116559316, 1065209500, -1092102220, "159"),
    (119, 135, 160, 1113554776, 1022104960, -1098072507, "160"),
    (81, 96, 124, 1109530862, 1070295983, -1099724718, "161"),
    (229, 232, 226, 1119305465, -1074036341, 1076092866, "3756"),
    (199, 214, 217, 1118386199, -1083081949, -1078819516, "775"),
    (191, 210, 217, 1118176320, -1084183324, -1085555499, "3841"),
    (161, 189, 205, 1117134967, -1086284949, -1093872120, "3325"),
    (134, 171, 194, 1116220360, -1088526636, -1098717720, "3755"),
    (91, 136, 164, 1113211782, -1089835574, -1100825371, "334"),
    (87, 126, 162, 1112363800, -1080286591, -1102831971, "322"),
    (14, 68, 105, 1104898940, -1075443466, -1104340546, "312"),
    (0, 53, 88, 1101539788, -1064670000, -1103883106, "803"),
    (15, 42, 71, 1099203292, 1067938233, -1101581778, "336"),
    (9, 13, 37, 1082824528, 1085315262, -1098908854, "823"),
    (11, 12, 28, 1081186768, 1079411716, -1092442726, "939"),
    (199, 211, 215, 1118276963, -1079113091, -1079501316, "3753"),
    (173, 191, 199, 1117288390, -1083200512, -1086561999, "3752"),
    (139, 161, 175, 1115818643, -1083342262, -1092426157, "932"),
    (91, 122, 142, 1111913104, -1085993762, -1097232844, "931"),
    (42, 69, 81, 1105035866, -1087430386, -1093032932, "930"),
    (13, 51, 70, 1100805192, -1085760543, -1098514263, "3750"),
    (195, 217, 217, 1118452722, -1089075762, -1075827566, "828"),
    (177, 209, 213, 1118005194, -1092348651, -1085344299, "3761"),
    (144, 183, 196, 1116744143, -1092660651, -1093514257, "519"),
    (86, 146, 161, 1113897256, -1098222994, -1096795894, "518"),
    (66, 129, 152, 1112233178, -1096144276, -1100226121, "3760"),
    (11, 94, 129, 1108666387, -1091959557, -1104123318, "517"),
    (0, 72, 104, 1105444984, -1087716730, -1103154687, "3842"),
    (0, 56, 84, 1101963688, -1083798824, -1101824465, "311"),
    (205, 228, 227, 1118952197, -1090032262, -1074163316, "747"),
    (144, 190, 193, 1116987270, -1097239870, -1087287249, "3766"),
    (85, 147, 156, 1113920058, -1099708821, -1093665594, "807"),
    (49, 94, 70, 1108391133, -1101924399, 1091601244, "806"),
    (0, 96, 121, 1108707048, -1097201510, -1101434846, "3765"),
    (182, 210, 206, 1118058026, -1092717682, -1066750308, "3811"),
    (154, 191, 187, 1117080396, -1095929057, -1074072516, "598"),
    (106, 156, 161, 1114936364, -1098212182, -1090391599, "597"),
    (70, 133, 136, 1112453038, -1100671649, -1090303174, "3810"),
    (1, 97, 99, 1108567132, -1102534923, -1090595944, "3809"),
    (25, 78, 80, 1106245614, -1099120431, -1087040924, "3808"),
    (200, 205, 198, 1118024315, -1077890466, 1077442366, "928"),
    (159, 171, 163, 1116320980, -1085831574, 1076538616, "927"),
    (121, 137, 133, 1113518270, -1087638824, 1043574784, "926"),
    (73, 90, 95, 1108615177, -1084772886, -1084321224, "3768"),
    (31, 63, 66, 1103336760, -1093461620, -1085272636, "924"),
    (102, 158, 148, 1114936898, -1101384306, -1058880400, "3849"),
    (47, 121, 108, 1110998990, -1104273540, 1050308192, "3848"),
    (0, 82, 69, 1106538074, -1103853954, 1069207908, "3847"),
    (168, 212, 199, 1117989677, -1099431196, 1071216808, "964"),
    (117, 183, 159, 1116415832, -1104388884, 1085462324, "959"),
    (102, 171, 146, 1115813609, -1105054993, 1086460074, "958"),
    (0, 136, 103, 1112067268, -1109351187, 1091553844, "3812"),
    (89, 169, 132, 1115548198, -1107665187, 1094310294, "3851"),
    (18, 140, 100, 1112438134, -1109686796, 1095465632, "943"),
    (0, 124, 77, 1110852538, -1109751625, 1099737890, "3850"),
    (129, 177, 151, 1116245074, -1101770852, 1090728982, "993"),
    (96, 153, 125, 1114306354, -1103722462, 1091438157, "992"),
    (44, 120, 98, 1110816188, -1105750978, 1084686774, "3814"),
    (0, 97, 71, 1108342651, -1107164243, 1090468886, "991"),
    (167, 188, 156, 1116985306, -1095920057, 1096615957, "966"),
    (174, 199, 167, 1117475188, -1097261870, 1096001857, "564"),
    (150, 183, 149, 1116632285, -1099863790, 1096452344, "563"),
    (92, 134, 94, 1112535864, -1102628337, 1099451146, "562"),
    (55, 99, 61, 1108861862, -1103241337, 1099414584, "505"),
    (165, 187, 168, 1116967124, -1093873120, 1088609849, "3817"),
    (118, 154, 133, 1114761208, -1099376712, 1088421199, "3816"),
    (85, 122, 96, 1111457215, -1100435946, 1092746082, "163"),
    (76, 114, 87, 1110599785, -1100824228, 1093423670, "3815"),
    (49, 94, 70, 1108391133, -1101924399, 1091601244, "561"),
    (154, 115, 30, 1112264116, 1089006949, 1111882565, "504"),
    (179, 196, 182, 1117460046, -1090997994, 1084325749, "3813"),
    (140, 167, 154, 1115969443, -1094715151, 1080482766, "503"),
    (116, 140, 124, 1113590780, -1094633494, 1085718749, "502"),
    (83, 106, 94, 1110099979, -1093937948, 1081872691, "501"),
    (19, 37, 25, 1095560962, -1093545244, 1085697662, "500"),
    (190, 218, 177, 1118319798, -1099299368, 1099502478, "955"),
    (157, 196, 147, 1117165716, -1102192962, 1101246484, "954"),
    (127, 173, 119, 1115988096, -1104157821, 1102548215, "913"),
    (97, 155, 99, 1114339294, -1106692884, 1102867252, "912"),
    (57, 132, 68, 1111815442, -1108784543, 1104991321, "911"),
    (30, 108, 43, 1109360342, -1108901523, 1105856824, "910"),
    (0, 85, 20, 1106642504, -1108655546, 1106331724, "909"),
    (0, 64, 21, 1102433978, -1106042087, 1101414454, "3818"),
    (194, 204, 168, 1117841011, -1092278182, 1099338459, "369"),
    (143, 159, 116, 1115490228, -1096223432, 1101331009, "368"),
    (105, 127, 91, 1112175706, -1097983463, 1099441687, "320"),
    (72, 97, 62, 1108955921, -1099301626, 1099447787, "367"),
    (23, 52, 24, 1100384680, -1100030462, 1097219763, "319"),
    (13, 29, 0, 1091242802, -1095405994, 1095528426, "890"),
    (166, 183, 132, 1116731755, -1097600401, 1103130034, "164"),
    (127, 143, 80, 1113802004, -1099096806, 1107054806, "989"),
    (110, 126, 64, 1112073592, -1099092696, 1107094599, "988"),
    (72, 92, 44, 1108447780, -1099277571, 1103629234, "987"),
    (34, 66, 20, 1103415554, -1101943454, 1102978015, "986"),
    (219, 219, 178, 1118630486, -1087826262, 1101123809, "772"),
    (189, 180, 115, 1116824386, -1087070824, 1107899717, "3348"),
    (115, 121, 59, 1111766078, -1094736932, 1107542089, "3347"),
    (90, 97, 43, 1109238059, -1094235651, 1105986040, "3346"),
    (43, 58, 6, 1102123816, -1097694151, 1105097478, "3345"),
    (33, 58, 22, 1101847004, -1099845681, 1100570918, "895"),
    (145, 161, 57, 1115470294, -1101138978, 1112128240, "704"),
    (127, 153, 64, 1114527374, -1102679024, 1110164770, "703"),
    (93, 135, 56, 1112478762, -1105583993, 1108678257, "702"),
    (66, 120, 41, 1110780453, -1107627296, 1108548709, "701"),
    (40, 105, 35, 1109138614, -1108238121, 1107396362, "700"),
    (0, 79, 17, 1105442824, -1108206488, 1105775502, "699"),
    (164, 174, 40, 1116242518, -1100808509, 1115233621, "907"),
    (103, 135, 0, 1112558908, -1105073618, 1113581328, "906"),
    (79, 102, 17, 1109373578, -1101649478, 1109759637, "905"),
    (62, 81, 15, 1107127350, -1099940587, 1107811226, "904"),
    (193, 179, 98, 1116803594, -1086188574, 1110143026, "472"),
    (144, 140, 72, 1113908826, -1090938276, 1108488970, "471"),
    (117, 123, 35, 1111904796, -1096965620, 1110691451, "470"),
    (94, 92, 23, 1108872857, -1090905244, 1108814629, "469"),
    (81, 85, 19, 1107974351, -1093551307, 1108267275, "937"),
    (66, 66, 28, 1104740896, -1086940793, 1102506068, "936"),
    (51, 55, 28, 1102062122, -1088196824, 1099078837, "935"),
    (39, 39, 22, 1098038272, -1079688404, 1093938348, "934"),
    (162, 162, 134, 1115938855, -1084016074, 1097445932, "523"),
    (157, 154, 112, 1115392648, -1085934262, 1102319484, "3053"),
    (132, 128, 90, 1112811634, -1083849324, 1101647224, "3052"),
    (72, 69, 29, 1105567160, -1084341668, 1103250609, "3051"),
    (179, 176, 148, 1116654863, -1080975341, 1097601244, "524"),
    (150, 154, 126, 1115316132, -1087318636, 1097067207, "522"),
    (68, 80, 54, 1107382925, -1092766323, 1096607088, "520"),
    (135, 135, 89, 1113398478, -1089642012, 1103517534, "3364"),
    (108, 113, 77, 1111059988, -1090901370, 1100690578, "3363"),
    (82, 90, 59, 1108550438, -1091653026, 1099382865, "3362"),
    (218, 199, 116, 1117806632, -1082937199, 1110380986, "165"),
    (213, 194, 90, 1117539700, -1086449699, 1112992751, "3819"),
    (185, 162, 22, 1116036558, -1083621949, 1116002363, "166"),
    (136, 132, 32, 1113026318, -1093125744, 1112223503, "581"),
    (103, 94, 23, 1109261827, -1084539074, 1109269743, "580"),
    (187, 156, 74, 1115897450, 1071936858, 1111065795, "734"),
    (165, 135, 44, 1113999062, 1071130358, 1112198360, "733"),
    (116, 92, 1, 1109445001, 1071185108, 1111353939, "732"),
    (213, 198, 178, 1117860560, 1073442108, 1094626020, "731"),
    (90, 72, 8, 1106985864, 1064297500, 1108664829, "730"),
    (176, 161, 113, 1116006419, -1071715858, 1104681490, "3013"),
    (134, 117, 65, 1111937614, -1060151000, 1106731162, "3012"),
    (102, 88, 47, 1108832407, -1048823892, 1103998812, "3011"),
    (179, 161, 117, 1116050949, -1025853568, 1103806784, "372"),
    (158, 133, 82, 1113780882, 1076080716, 1106739909, "371"),
    (159, 136, 82, 1114018960, 1067997358, 1107322462, "370"),
    (198, 163, 87, 1116297144, 1080972966, 1110394592, "834"),
    (174, 136, 54, 1114336936, 1085736636, 1111483239, "833"),
    (154, 115, 30, 1112264116, 1089006949, 1111882565, "832"),
    (127, 95, 22, 1110020410, 1086027949, 1110325270, "831"),
    (103, 75, 16, 1107790660, 1086193699, 1108631300, "830"),
    (95, 61, 13, 1105671904, 1093157416, 1107666113, "829"),
    (214, 201, 177, 1117968896, 1058694000, 1096424170, "613"),
    (173, 148, 109, 1115330988, 1080525966, 1103152678, "612"),
    (112, 90, 57, 1109306745, 1082704855, 1102268428, "611"),
    (107, 82, 45, 1108515255, 1085367762, 1103894368, "610"),
    (225, 206, 163, 1118219107, 1038686176, 1103014621, "3047"),
    (208, 181, 126, 1117100839, 1073862716, 1107087940, "3046"),
    (169, 131, 82, 1113940348, 1090979432, 1107267343, "3045"),
    (149, 107, 58, 1111628260, 1093876088, 1107735056, "167"),
    (245, 235, 207, 1119507038, -1066652108, 1097656594, "746"),
    (233, 209, 160, 1118400975, 1067236108, 1104885896, "677"),
    (191, 157, 109, 1116044686, 1086568136, 1106152152, "422"),
    (168, 130, 79, 1113832700, 1090820432, 1107567023, "3828"),
    (135, 90, 40, 1109965093, 1096259682, 1108216796, "420"),
    (112, 76, 30, 1108191671, 1093067573, 1107428960, "869"),
    (226, 165, 56, 1116707671, 1095521213, 1115166414, "728"),
    (196, 129, 28, 1114493298, 1100109524, 1114506775, "783"),
    (153, 92, 0, 1110662278, 1100624259, 1112827743, "782"),
    (212, 140, 172, 1115988394, 1107247837, -1085262499, "781"),
    (132, 71, 5, 1108551395, 1101987415, 1110658007, "780"),
    (219, 175, 109, 1117005854, 1090456074, 1109323414, "676"),
    (184, 135, 67, 1114589354, 1094193963, 1110213690, "729"),
    (160, 114, 47, 1112411470, 1094085901, 1110175246, "680"),
    (148, 98, 25, 1110907104, 1096907057, 1111077667, "3829"),
    (236, 196, 111, 1117912469, 1082257824, 1111384304, "3822"),
    (221, 171, 70, 1116845366, 1090634994, 1113880396, "3821"),
    (208, 154, 46, 1116086828, 1093136838, 1114801495, "3820"),
    (192, 129, 3, 1114346882, 1098963821, 1115714107, "3852"),
    (255, 237, 148, 1119543193, -1086040262, 1110767810, "445"),
    (255, 212, 56, 1118610803, 1058499000, 1117335943, "307"),
    (250, 195, 0, 1117976994, 1086690386, 1118188789, "973"),
    (248, 189, 0, 1117757803, 1090968963, 1118025018, "444"),
    (250, 227, 160, 1119183102, -1069350108, 1108246848, "3078"),
    (252, 221, 135, 1118961393, -1047858784, 1110961298, "727"),
    (248, 200, 83, 1118156367, 1084257824, 1115401526, "726"),
    (238, 175, 66, 1117204800, 1095771182, 1115212154, "725"),
    (245, 158, 0, 1116751958, 1102785931, 1117328799, "972"),
    (253, 226, 172, 1119210234, 1070269358, 1106159478, "745"),
    (250, 209, 130, 1118539008, 1083483012, 1110542732, "744"),
    (248, 192, 88, 1117905259, 1092043651, 1114286757, "743"),
    (243, 162, 48, 1116860000, 1101673228, 1116046921, "742"),
    (238, 135, 0, 1115965712, 1107429273, 1116768969, "741"),
    (219, 100, 0, 1113657202, 1110088914, 1115809190, "740"),
    (231, 110, 32, 1114665800, 1110131531, 1114818754, "970"),
    (199, 113, 138, 1114069114, 1108563632, 1067921408, "971"),
    (207, 80, 20, 1112212166, 1111444664, 1113553234, "947"),
    (193, 75, 30, 1111380378, 1110759242, 1111629142, "946"),
    (166, 54, 31, 1109215116, 1110671300, 1109051231, "900"),
    (252, 202, 185, 1118466350, 1098155401, 1098082807, "967"),
    (246, 170, 151, 1117313240, 1103961978, 1101569959, "3824"),
    (234, 142, 119, 1116228563, 1107426898, 1104733928, "3341"),
    (223, 108, 73, 1114342436, 1110001679, 1109460395, "3340"),
    (204, 63, 24, 1111378827, 1113071351, 1112490290, "608"),
    (174, 13, 19, 1108508035, 1114322281, 1110165203, "606"),
    (238, 210, 185, 1118554493, 1086179636, 1098881720, "951"),
    (233, 187, 147, 1117654300, 1093839588, 1104433752, "3856"),
    (231, 141, 91, 1116094386, 1106024009, 1109605248, "722"),
    (209, 98, 43, 1113199710, 1109544351, 1112026107, "721"),
    (177, 67, 2, 1110261703, 1110044140, 1112936556, "720"),
    (242, 168, 126, 1117136000, 1102343946, 1107455076, "3825"),
    (190, 103, 58, 1112775172, 1106818774, 1109419526, "922"),
    (161, 74, 33, 1109952465, 1107676976, 1109434590, "921"),
    (135, 49, 19, 1107477425, 1108164644, 1108478236, "920"),
    (113, 28, 2, 1103513520, 1108376496, 1108177651, "919"),
    (108, 36, 17, 1103748174, 1106783259, 1105594252, "918"),
    (248, 230, 213, 1119392824, 1079523966, 1093126644, "3770"),
    (227, 194, 167, 1117857383, 1089873824, 1099921809, "945"),
    (211, 145, 101, 1115918285, 1101064993, 1107638382, "402"),
    (177, 100, 52, 1112105938, 1104667899, 1109360184, "3776"),
    (143, 74, 28, 1109204484, 1103993571, 1109089590, "301"),
    (102, 39, 0, 1103398158, 1104403181, 1108140621, "400"),
    (74, 27, 0, 1099274410, 1101411087, 1103642242, "300"),
    (251, 234, 197, 1119510033, 1029029568, 1101045790, "3823"),
    (249, 203, 140, 1118352626, 1090846307, 1108740292, "3855"),
    (226, 154, 93, 1116408560, 1101409274, 1110054414, "3854"),
    (205, 114, 45, 1113922014, 1106661618, 1112436853, "3853"),
    (222, 163, 105, 1116652478, 1098137151, 1109001001, "3827"),
    (214, 146, 84, 1115964470, 1100718837, 1110113650, "977"),
    (181, 108, 42, 1112706718, 1102998931, 1111306392, "976"),
    (151, 84, 35, 1110134556, 1103031696, 1109229082, "3826"),
    (101, 45, 8, 1104018380, 1102540181, 1107563833, "975"),
    (237, 210, 191, 1118560145, 1087235199, 1095612882, "948"),
    (228, 182, 160, 1117463868, 1096282682, 1099704578, "754"),
    (214, 161, 132, 1116535857, 1098747307, 1102442234, "3771"),
    (206, 152, 132, 1116138516, 1099732712, 1100197840, "758"),
    (177, 110, 93, 1112871080, 1103464181, 1101352890, "3778"),
    (152, 82, 69, 1110173204, 1105060806, 1101293352, "356"),
    (135, 54, 43, 1107796748, 1107803011, 1103262528, "3830"),
    (109, 27, 22, 1103090864, 1108263261, 1103396281, "355"),
    (95, 13, 17, 1100513714, 1108284328, 1101737942, "3777"),
    (222, 173, 158, 1117094363, 1098650463, 1097413807, "3779"),
    (161, 111, 93, 1112418266, 1099713290, 1099956249, "3859"),
    (99, 47, 43, 1104325540, 1102588876, 1096211526, "3858"),
    (68, 21, 8, 1097130260, 1101980602, 1100211242, "3857"),
    (229, 201, 182, 1118150619, 1088173762, 1095875744, "3774"),
    (221, 190, 168, 1117658427, 1089853386, 1098065232, "950"),
    (171, 122, 99, 1113472988, 1098982649, 1101095178, "3064"),
    (173, 130, 114, 1114137988, 1097125620, 1097965832, "407"),
    (143, 74, 28, 1109204484, 1103993571, 1109089590, "3773"),
    (138, 90, 74, 1110200604, 1099837915, 1099610984, "3772"),
    (112, 66, 53, 1107593245, 1100165173, 1099097912, "632"),
    (204, 193, 185, 1117617009, 1075714216, 1085069924, "453"),
    (177, 161, 157, 1116141035, 1084492574, 1082533249, "452"),
    (134, 116, 111, 1112104714, 1086565886, 1084934649, "451"),
    (155, 131, 126, 1113794766, 1090840620, 1086540899, "3861"),
    (108, 81, 75, 1108628037, 1092961229, 1090311774, "3860"),
    (88, 60, 55, 1105374116, 1094269291, 1090545820, "779"),
    (237, 223, 201, 1119013036, 1067110608, 1095239882, "712"),
    (232, 212, 180, 1118539022, 1073431858, 1100148296, "739"),
    (212, 180, 140, 1117147723, 1085920262, 1103474196, "738"),
    (204, 159, 113, 1116291220, 1093456620, 1106440615, "437"),
    (172, 121, 72, 1113321444, 1097314901, 1107955487, "436"),
    (153, 98, 50, 1111131504, 1099747540, 1108312560, "435"),
    (121, 68, 18, 1107947731, 1100438126, 1108795141, "434"),
    (92, 49, 13, 1103764810, 1099180204, 1106191796, "433"),
    (76, 40, 15, 1101212572, 1097305541, 1102607657, "801"),
    (63, 33, 8, 1099073544, 1094800744, 1101457837, "898"),
    (51, 24, 6, 1094460544, 1094442627, 1098200966, "938"),
    (31, 5, 0, 1080504624, 1092407932, 1085466299, "3371"),
    (222, 201, 184, 1118077187, 1083410012, 1093837344, "543"),
    (191, 162, 139, 1116286893, 1088693886, 1098831407, "3864"),
    (147, 112, 85, 1112024042, 1092713994, 1101185996, "3863"),
    (124, 88, 59, 1109535527, 1093844901, 1102383806, "3862"),
    (57, 37, 21, 1099292888, 1089024793, 1097214944, "3031"),
    (251, 249, 240, 1120122178, -1063380000, 1083276074, "3865"),
    (223, 211, 191, 1118439497, 1062537500, 1094072820, "822"),
    (200, 190, 168, 1117420432, -1043062784, 1095109844, "644"),
    (146, 134, 110, 1113685850, 1056628392, 1097421194, "642"),
    (123, 111, 83, 1111291828, 1032898176, 1099604709, "640"),
    (78, 72, 54, 1106609598, -1061857000, 1094437744, "3787"),
    (47, 38, 26, 1098724974, 1073914966, 1092137444, "3021"),
    (202, 199, 186, 1117801782, -1067401108, 1088154499, "3024"),
    (165, 157, 137, 1115802677, -1057719000, 1094206994, "3023"),
    (135, 132, 108, 1113273064, -1078535466, 1096173032, "3022"),
    (72, 70, 68, 1106169444, 1053839392, 1069543258, "535"),
    (213, 198, 178, 1117860560, 1073442108, 1094626020, "3033"),
    (180, 163, 138, 1116186030, 1074345091, 1098126670, "3782"),
    (145, 128, 100, 1113175230, 1073798591, 1099748902, "3032"),
    (123, 100, 77, 1110450828, 1085697262, 1099186931, "3790"),
    (72, 52, 32, 1102821972, 1086559136, 1098962331, "3781"),
    (229, 219, 207, 1118815525, 1068601858, 1088661299, "3866"),
    (187, 165, 146, 1116359706, 1084140262, 1095541970, "842"),
    (165, 140, 121, 1114639436, 1087204886, 1096448482, "841"),
    (131, 106, 85, 1111149098, 1087816199, 1098435057, "840"),
    (78, 56, 39, 1103913304, 1089024855, 1097269307, "839"),
    (57, 33, 23, 1098477328, 1092865416, 1094256970, "838"),
    (208, 208, 196, 1118199149, -1074258466, 1086228224, "3072"),
    (176, 168, 155, 1116364511, 1058485500, 1089974999, "648"),
    (158, 156, 138, 1115693331, -1075878091, 1092296944, "647"),
    (128, 123, 105, 1112429590, -1068338358, 1093180132, "646"),
    (89, 86, 76, 1108491120, -1061325250, 1086869824, "645"),
    (64, 57, 51, 1103363144, 1072534608, 1083920274, "844"),
    (221, 222, 220, 1118875634, -1060262500, 1062992400, "762"),
    (145, 148, 152, 1114948528, -1049964392, -1075780216, "415"),
    (151, 154, 162, 1115577186, 1057268000, -1083287474, "318"),
    (112, 116, 125, 1111695050, 1054319392, -1085197124, "414"),
    (182, 189, 189, 1117267948, -1075503716, -1062719200, "168"),
    (125, 132, 130, 1113201430, -1077885341, 1044076384, "169"),
    (76, 82, 90, 1107982723, -1057051250, -1085238524, "317"),
    (58, 65, 67, 1104662484, -1075411904, -1074593841, "413"),
    (44, 44, 42, 1099923048, -1055873392, 1067841258, "3799"),
    (0, 0, 0, 0, 0, 0, "310"),
    (209, 208, 205, 1118238379, -1045050784, 1070438408, "01"),
    (190, 190, 189, 1117382208, -1044178784, 1057021000, "02"),
    (151, 152, 156, 1115389690, 1054353392, -1074672766, "03"),
    (116, 114, 117, 1111569288, 1068479358, -1068573108, "04"),
    (197, 183, 173, 1117165796, 1079025841, 1088146774, "05"),
    (189, 174, 163, 1116740196, 1080059216, 1089648224, "06"),
    (143, 125, 111, 1112974036, 1083262949, 1092794957, "07"),
    (88, 68, 55, 1106564644, 1087362230, 1093835126, "08"),
    (65, 46, 48, 1101620724, 1091645135, 1074327841, "09"),
    (232, 226, 189, 1119026873, -1081841466, 1100404296, "10"),
    (232, 215, 124, 1118517541, -1086705074, 1111173329, "11"),
    (217, 200, 84, 1117783536, -1090282699, 1114265764, "12"),
    (185, 211, 159, 1117980474, -1099894743, 1102549228, "13"),
    (223, 226, 165, 1118876630, -1093236088, 1106025696, "14"),
    (210, 212, 141, 1118213348, -1094189057, 1108074370, "15"),
    (194, 198, 91, 1117473510, -1098793870, 1112611270, "16"),
    (233, 198, 95, 1117918087, 1057981000, 1113375910, "17"),
    (225, 186, 68, 1117389829, 1072060358, 1115260498, "18"),
    (251, 192, 124, 1117999148, 1096109557, 1109985076, "19"),
    (247, 192, 175, 1118063485, 1099611337, 1098982915, "20"),
    (178, 101, 86, 1112330678, 1105917602, 1102057306, "21"),
    (131, 39, 37, 1106471230, 1109180382, 1102928781, "22"),
    (249, 234, 234, 1119597551, 1084365949, 1072244908, "23"),
    (233, 222, 228, 1119023479, 1083786574, -1070289208, "24"),
    (219, 213, 224, 1118571289, 1082216699, -1083543674, "25"),
    (201, 200, 218, 1117936003, 1081123216, -1091361657, "26"),
    (226, 223, 225, 1118975030, 1068464108, -1058932200, "27"),
    (121, 114, 132, 1111807874, 1087176199, -1091449070, "28"),
    (60, 46, 68, 1101700744, 1094001744, -1094033432, "29"),
    (126, 125, 158, 1112950464, 1089744386, -1099693821, "30"),
    (92, 91, 128, 1109421549, 1091924323, -1101300656, "31"),
    (62, 64, 99, 1105386730, 1091229838, -1101467709, "32"),
    (129, 74, 126, 1109314944, 1107143493, -1100816909, "33"),
    (104, 23, 92, 1103485004, 1110199164, -1101847209, "34"),
    (80, 17, 65, 1099885778, 1107927785, -1097212488, "35"),
];

/// The thread at position `i` of the DMC table.
pub open spec fn dmc_thread(i: int) -> DmcColor {
    let row = RGB_TO_DMC[i];
    DmcColor {
        name: row.6,
        rgb: RgbColor { red: row.0, green: row.1, blue: row.2 },
        lab: LabColor { l: row.3, a: row.4, b: row.5 },
    }
}

} // verus!
