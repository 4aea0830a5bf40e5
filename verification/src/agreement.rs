//! The two query texts of the yearly report are interpreted as exactly the
//! plans that the builder yields for the same requests, so both surfaces give
//! the same outcome on every table.

use vstd::prelude::*;

use crate::engine::{outcome, try_all};
use crate::error::Error;
use crate::interpret::{
    aggregates_of, aggregates_of_item, arranged, group_key_of, group_keys_of, interpret,
    item_names, keys_cover_items, parse, plan_of, projections_of, shaped, supported_items,
};
use crate::lexer::{
    capped_value, join, lemma_lex_number, lemma_lex_quoted, lemma_lex_space, lemma_lex_symbol,
    lemma_lex_word, lex_from, tokens_of, TokenView,
};
use crate::names::lemma_index_of_some;
use crate::plan::{
    key_aliases, projection_aliases, refs_known, stage_names, GroupKeyView, Plan, PlanView,
    SortKeyView,
};
use crate::queries::{
    lemma_monthly_revenue_names, lemma_tip_behavior_names, monthly_revenue_plan,
    monthly_revenue_sql, monthly_revenue_text, tip_behavior_plan, tip_behavior_sql,
    tip_behavior_text,
};
use crate::table::ColumnView;
use crate::text::{
    letter_code, parse_group_by, parse_item, parse_items, parse_order_by, parse_references,
    parse_tail, parse_tokens, reserved, same_word, ItemView, QueryView, ReferenceView, TermView,
};
use crate::value::{Op, Value};

verus! {


/// The characters of the text.
proof fn lemma_monthly_revenue_chars()
    ensures
        ({
            let t = monthly_revenue_text();
            &&& t.len() == 278
            &&& t[0] == '\n' &&& t[1] == ' ' &&& t[2] == ' ' &&& t[3] == ' ' &&& t[4] == ' '
            &&& t[5] == ' ' &&& t[6] == ' ' &&& t[7] == ' ' &&& t[8] == ' ' &&& t[9] == 'S'
            &&& t[10] == 'E' &&& t[11] == 'L' &&& t[12] == 'E' &&& t[13] == 'C' &&& t[14] == 'T'
            &&& t[15] == '\n' &&& t[16] == ' ' &&& t[17] == ' ' &&& t[18] == ' ' &&& t[19] == ' '
            &&& t[20] == ' ' &&& t[21] == ' ' &&& t[22] == ' ' &&& t[23] == ' ' &&& t[24] == ' '
            &&& t[25] == ' ' &&& t[26] == ' ' &&& t[27] == ' ' &&& t[28] == 'd' &&& t[29] == 'a'
            &&& t[30] == 't' &&& t[31] == 'e' &&& t[32] == '_' &&& t[33] == 't' &&& t[34] == 'r'
            &&& t[35] == 'u' &&& t[36] == 'n' &&& t[37] == 'c' &&& t[38] == '(' &&& t[39] == '\''
            &&& t[40] == 'm' &&& t[41] == 'o' &&& t[42] == 'n' &&& t[43] == 't' &&& t[44] == 'h'
            &&& t[45] == '\'' &&& t[46] == ',' &&& t[47] == ' ' &&& t[48] == 't' &&& t[49] == 'p'
            &&& t[50] == 'e' &&& t[51] == 'p' &&& t[52] == '_' &&& t[53] == 'p' &&& t[54] == 'i'
            &&& t[55] == 'c' &&& t[56] == 'k' &&& t[57] == 'u' &&& t[58] == 'p' &&& t[59] == '_'
            &&& t[60] == 'd' &&& t[61] == 'a' &&& t[62] == 't' &&& t[63] == 'e' &&& t[64] == 't'
            &&& t[65] == 'i' &&& t[66] == 'm' &&& t[67] == 'e' &&& t[68] == ')' &&& t[69] == ' '
            &&& t[70] == 'A' &&& t[71] == 'S' &&& t[72] == ' ' &&& t[73] == 'p' &&& t[74] == 'i'
            &&& t[75] == 'c' &&& t[76] == 'k' &&& t[77] == 'u' &&& t[78] == 'p' &&& t[79] == '_'
            &&& t[80] == 'm' &&& t[81] == 'o' &&& t[82] == 'n' &&& t[83] == 't' &&& t[84] == 'h'
            &&& t[85] == ',' &&& t[86] == '\n' &&& t[87] == ' ' &&& t[88] == ' ' &&& t[89] == ' '
            &&& t[90] == ' ' &&& t[91] == ' ' &&& t[92] == ' ' &&& t[93] == ' ' &&& t[94] == ' '
            &&& t[95] == ' ' &&& t[96] == ' ' &&& t[97] == ' ' &&& t[98] == ' ' &&& t[99] == 'C'
            &&& t[100] == 'O' &&& t[101] == 'U' &&& t[102] == 'N' &&& t[103] == 'T' &&& t[104] == '('
            &&& t[105] == '*' &&& t[106] == ')' &&& t[107] == ' ' &&& t[108] == 'A' &&& t[109] == 'S'
            &&& t[110] == ' ' &&& t[111] == 't' &&& t[112] == 'r' &&& t[113] == 'i' &&& t[114] == 'p'
            &&& t[115] == '_' &&& t[116] == 'c' &&& t[117] == 'o' &&& t[118] == 'u' &&& t[119] == 'n'
            &&& t[120] == 't' &&& t[121] == ',' &&& t[122] == '\n' &&& t[123] == ' ' &&& t[124] == ' '
            &&& t[125] == ' ' &&& t[126] == ' ' &&& t[127] == ' ' &&& t[128] == ' ' &&& t[129] == ' '
            &&& t[130] == ' ' &&& t[131] == ' ' &&& t[132] == ' ' &&& t[133] == ' ' &&& t[134] == ' '
            &&& t[135] == 'S' &&& t[136] == 'U' &&& t[137] == 'M' &&& t[138] == '(' &&& t[139] == 't'
            &&& t[140] == 'o' &&& t[141] == 't' &&& t[142] == 'a' &&& t[143] == 'l' &&& t[144] == '_'
            &&& t[145] == 'a' &&& t[146] == 'm' &&& t[147] == 'o' &&& t[148] == 'u' &&& t[149] == 'n'
            &&& t[150] == 't' &&& t[151] == ')' &&& t[152] == ' ' &&& t[153] == 'A' &&& t[154] == 'S'
            &&& t[155] == ' ' &&& t[156] == 't' &&& t[157] == 'o' &&& t[158] == 't' &&& t[159] == 'a'
            &&& t[160] == 'l' &&& t[161] == '_' &&& t[162] == 'r' &&& t[163] == 'e' &&& t[164] == 'v'
            &&& t[165] == 'e' &&& t[166] == 'n' &&& t[167] == 'u' &&& t[168] == 'e' &&& t[169] == ','
            &&& t[170] == '\n' &&& t[171] == ' ' &&& t[172] == ' ' &&& t[173] == ' ' &&& t[174] == ' '
            &&& t[175] == ' ' &&& t[176] == ' ' &&& t[177] == ' ' &&& t[178] == ' ' &&& t[179] == ' '
            &&& t[180] == ' ' &&& t[181] == ' ' &&& t[182] == ' ' &&& t[183] == 'A' &&& t[184] == 'V'
            &&& t[185] == 'G' &&& t[186] == '(' &&& t[187] == 'f' &&& t[188] == 'a' &&& t[189] == 'r'
            &&& t[190] == 'e' &&& t[191] == '_' &&& t[192] == 'a' &&& t[193] == 'm' &&& t[194] == 'o'
            &&& t[195] == 'u' &&& t[196] == 'n' &&& t[197] == 't' &&& t[198] == ')' &&& t[199] == ' '
            &&& t[200] == 'A' &&& t[201] == 'S' &&& t[202] == ' ' &&& t[203] == 'a' &&& t[204] == 'v'
            &&& t[205] == 'g' &&& t[206] == '_' &&& t[207] == 'f' &&& t[208] == 'a' &&& t[209] == 'r'
            &&& t[210] == 'e' &&& t[211] == '\n' &&& t[212] == ' ' &&& t[213] == ' ' &&& t[214] == ' '
            &&& t[215] == ' ' &&& t[216] == ' ' &&& t[217] == ' ' &&& t[218] == ' ' &&& t[219] == ' '
            &&& t[220] == 'F' &&& t[221] == 'R' &&& t[222] == 'O' &&& t[223] == 'M' &&& t[224] == ' '
            &&& t[225] == 'y' &&& t[226] == 'e' &&& t[227] == 'l' &&& t[228] == 'l' &&& t[229] == 'o'
            &&& t[230] == 'w' &&& t[231] == '\n' &&& t[232] == ' ' &&& t[233] == ' ' &&& t[234] == ' '
            &&& t[235] == ' ' &&& t[236] == ' ' &&& t[237] == ' ' &&& t[238] == ' ' &&& t[239] == ' '
            &&& t[240] == 'G' &&& t[241] == 'R' &&& t[242] == 'O' &&& t[243] == 'U' &&& t[244] == 'P'
            &&& t[245] == ' ' &&& t[246] == 'B' &&& t[247] == 'Y' &&& t[248] == ' ' &&& t[249] == '1'
            &&& t[250] == '\n' &&& t[251] == ' ' &&& t[252] == ' ' &&& t[253] == ' ' &&& t[254] == ' '
            &&& t[255] == ' ' &&& t[256] == ' ' &&& t[257] == ' ' &&& t[258] == ' ' &&& t[259] == 'O'
            &&& t[260] == 'R' &&& t[261] == 'D' &&& t[262] == 'E' &&& t[263] == 'R' &&& t[264] == ' '
            &&& t[265] == 'B' &&& t[266] == 'Y' &&& t[267] == ' ' &&& t[268] == '1' &&& t[269] == ' '
            &&& t[270] == 'A' &&& t[271] == 'S' &&& t[272] == 'C' &&& t[273] == '\n' &&& t[274] == ' '
            &&& t[275] == ' ' &&& t[276] == ' ' &&& t[277] == ' '
        }),
{
    reveal_strlit("
        SELECT
            date_trunc('month', tpep_pickup_datetime) AS pickup_month,
            COUNT(*) AS trip_count,
            SUM(total_amount) AS total_revenue,
            AVG(fare_amount) AS avg_fare
        FROM yellow
        GROUP BY 1
        ORDER BY 1 ASC
    ");
}

proof fn lemma_monthly_revenue_token_0()
    ensures
        lex_from(monthly_revenue_text(), 0) == join(seq![TokenView::Word("SELECT"@)], lex_from(monthly_revenue_text(), 15)),
{
    let t = monthly_revenue_text();
    lemma_monthly_revenue_chars();
    lemma_lex_space(t, 0, 9);
    lemma_lex_word(t, 9, 15);
    reveal_strlit("SELECT");
    assert(t.subrange(9, 15) =~= "SELECT"@);
}

proof fn lemma_monthly_revenue_token_1()
    ensures
        lex_from(monthly_revenue_text(), 15) == join(seq![TokenView::Word("date_trunc"@)], lex_from(monthly_revenue_text(), 38)),
{
    let t = monthly_revenue_text();
    lemma_monthly_revenue_chars();
    lemma_lex_space(t, 15, 28);
    lemma_lex_word(t, 28, 38);
    reveal_strlit("date_trunc");
    assert(t.subrange(28, 38) =~= "date_trunc"@);
}

proof fn lemma_monthly_revenue_token_2()
    ensures
        lex_from(monthly_revenue_text(), 38) == join(seq![TokenView::LeftParen], lex_from(monthly_revenue_text(), 39)),
{
    let t = monthly_revenue_text();
    lemma_monthly_revenue_chars();
    lemma_lex_symbol(t, 38);
}

proof fn lemma_monthly_revenue_token_3()
    ensures
        lex_from(monthly_revenue_text(), 39) == join(seq![TokenView::Quoted("month"@)], lex_from(monthly_revenue_text(), 46)),
{
    let t = monthly_revenue_text();
    lemma_monthly_revenue_chars();
    lemma_lex_quoted(t, 39, 45);
    reveal_strlit("month");
    assert(t.subrange(40, 45) =~= "month"@);
}

proof fn lemma_monthly_revenue_token_4()
    ensures
        lex_from(monthly_revenue_text(), 46) == join(seq![TokenView::Comma], lex_from(monthly_revenue_text(), 47)),
{
    let t = monthly_revenue_text();
    lemma_monthly_revenue_chars();
    lemma_lex_symbol(t, 46);
}

proof fn lemma_monthly_revenue_token_5()
    ensures
        lex_from(monthly_revenue_text(), 47) == join(seq![TokenView::Word("tpep_pickup_datetime"@)], lex_from(monthly_revenue_text(), 68)),
{
    let t = monthly_revenue_text();
    lemma_monthly_revenue_chars();
    lemma_lex_space(t, 47, 48);
    lemma_lex_word(t, 48, 68);
    reveal_strlit("tpep_pickup_datetime");
    assert(t.subrange(48, 68) =~= "tpep_pickup_datetime"@);
}

proof fn lemma_monthly_revenue_token_6()
    ensures
        lex_from(monthly_revenue_text(), 68) == join(seq![TokenView::RightParen], lex_from(monthly_revenue_text(), 69)),
{
    let t = monthly_revenue_text();
    lemma_monthly_revenue_chars();
    lemma_lex_symbol(t, 68);
}

proof fn lemma_monthly_revenue_token_7()
    ensures
        lex_from(monthly_revenue_text(), 69) == join(seq![TokenView::Word("AS"@)], lex_from(monthly_revenue_text(), 72)),
{
    let t = monthly_revenue_text();
    lemma_monthly_revenue_chars();
    lemma_lex_space(t, 69, 70);
    lemma_lex_word(t, 70, 72);
    reveal_strlit("AS");
    assert(t.subrange(70, 72) =~= "AS"@);
}

proof fn lemma_monthly_revenue_token_8()
    ensures
        lex_from(monthly_revenue_text(), 72) == join(seq![TokenView::Word("pickup_month"@)], lex_from(monthly_revenue_text(), 85)),
{
    let t = monthly_revenue_text();
    lemma_monthly_revenue_chars();
    lemma_lex_space(t, 72, 73);
    lemma_lex_word(t, 73, 85);
    reveal_strlit("pickup_month");
    assert(t.subrange(73, 85) =~= "pickup_month"@);
}

proof fn lemma_monthly_revenue_token_9()
    ensures
        lex_from(monthly_revenue_text(), 85) == join(seq![TokenView::Comma], lex_from(monthly_revenue_text(), 86)),
{
    let t = monthly_revenue_text();
    lemma_monthly_revenue_chars();
    lemma_lex_symbol(t, 85);
}

proof fn lemma_monthly_revenue_token_10()
    ensures
        lex_from(monthly_revenue_text(), 86) == join(seq![TokenView::Word("COUNT"@)], lex_from(monthly_revenue_text(), 104)),
{
    let t = monthly_revenue_text();
    lemma_monthly_revenue_chars();
    lemma_lex_space(t, 86, 99);
    lemma_lex_word(t, 99, 104);
    reveal_strlit("COUNT");
    assert(t.subrange(99, 104) =~= "COUNT"@);
}

proof fn lemma_monthly_revenue_token_11()
    ensures
        lex_from(monthly_revenue_text(), 104) == join(seq![TokenView::LeftParen], lex_from(monthly_revenue_text(), 105)),
{
    let t = monthly_revenue_text();
    lemma_monthly_revenue_chars();
    lemma_lex_symbol(t, 104);
}

proof fn lemma_monthly_revenue_token_12()
    ensures
        lex_from(monthly_revenue_text(), 105) == join(seq![TokenView::Star], lex_from(monthly_revenue_text(), 106)),
{
    let t = monthly_revenue_text();
    lemma_monthly_revenue_chars();
    lemma_lex_symbol(t, 105);
}

proof fn lemma_monthly_revenue_token_13()
    ensures
        lex_from(monthly_revenue_text(), 106) == join(seq![TokenView::RightParen], lex_from(monthly_revenue_text(), 107)),
{
    let t = monthly_revenue_text();
    lemma_monthly_revenue_chars();
    lemma_lex_symbol(t, 106);
}

proof fn lemma_monthly_revenue_token_14()
    ensures
        lex_from(monthly_revenue_text(), 107) == join(seq![TokenView::Word("AS"@)], lex_from(monthly_revenue_text(), 110)),
{
    let t = monthly_revenue_text();
    lemma_monthly_revenue_chars();
    lemma_lex_space(t, 107, 108);
    lemma_lex_word(t, 108, 110);
    reveal_strlit("AS");
    assert(t.subrange(108, 110) =~= "AS"@);
}

proof fn lemma_monthly_revenue_token_15()
    ensures
        lex_from(monthly_revenue_text(), 110) == join(seq![TokenView::Word("trip_count"@)], lex_from(monthly_revenue_text(), 121)),
{
    let t = monthly_revenue_text();
    lemma_monthly_revenue_chars();
    lemma_lex_space(t, 110, 111);
    lemma_lex_word(t, 111, 121);
    reveal_strlit("trip_count");
    assert(t.subrange(111, 121) =~= "trip_count"@);
}

proof fn lemma_monthly_revenue_token_16()
    ensures
        lex_from(monthly_revenue_text(), 121) == join(seq![TokenView::Comma], lex_from(monthly_revenue_text(), 122)),
{
    let t = monthly_revenue_text();
    lemma_monthly_revenue_chars();
    lemma_lex_symbol(t, 121);
}

proof fn lemma_monthly_revenue_token_17()
    ensures
        lex_from(monthly_revenue_text(), 122) == join(seq![TokenView::Word("SUM"@)], lex_from(monthly_revenue_text(), 138)),
{
    let t = monthly_revenue_text();
    lemma_monthly_revenue_chars();
    lemma_lex_space(t, 122, 135);
    lemma_lex_word(t, 135, 138);
    reveal_strlit("SUM");
    assert(t.subrange(135, 138) =~= "SUM"@);
}

proof fn lemma_monthly_revenue_token_18()
    ensures
        lex_from(monthly_revenue_text(), 138) == join(seq![TokenView::LeftParen], lex_from(monthly_revenue_text(), 139)),
{
    let t = monthly_revenue_text();
    lemma_monthly_revenue_chars();
    lemma_lex_symbol(t, 138);
}

proof fn lemma_monthly_revenue_token_19()
    ensures
        lex_from(monthly_revenue_text(), 139) == join(seq![TokenView::Word("total_amount"@)], lex_from(monthly_revenue_text(), 151)),
{
    let t = monthly_revenue_text();
    lemma_monthly_revenue_chars();
    lemma_lex_word(t, 139, 151);
    reveal_strlit("total_amount");
    assert(t.subrange(139, 151) =~= "total_amount"@);
}

proof fn lemma_monthly_revenue_token_20()
    ensures
        lex_from(monthly_revenue_text(), 151) == join(seq![TokenView::RightParen], lex_from(monthly_revenue_text(), 152)),
{
    let t = monthly_revenue_text();
    lemma_monthly_revenue_chars();
    lemma_lex_symbol(t, 151);
}

proof fn lemma_monthly_revenue_token_21()
    ensures
        lex_from(monthly_revenue_text(), 152) == join(seq![TokenView::Word("AS"@)], lex_from(monthly_revenue_text(), 155)),
{
    let t = monthly_revenue_text();
    lemma_monthly_revenue_chars();
    lemma_lex_space(t, 152, 153);
    lemma_lex_word(t, 153, 155);
    reveal_strlit("AS");
    assert(t.subrange(153, 155) =~= "AS"@);
}

proof fn lemma_monthly_revenue_token_22()
    ensures
        lex_from(monthly_revenue_text(), 155) == join(seq![TokenView::Word("total_revenue"@)], lex_from(monthly_revenue_text(), 169)),
{
    let t = monthly_revenue_text();
    lemma_monthly_revenue_chars();
    lemma_lex_space(t, 155, 156);
    lemma_lex_word(t, 156, 169);
    reveal_strlit("total_revenue");
    assert(t.subrange(156, 169) =~= "total_revenue"@);
}

proof fn lemma_monthly_revenue_token_23()
    ensures
        lex_from(monthly_revenue_text(), 169) == join(seq![TokenView::Comma], lex_from(monthly_revenue_text(), 170)),
{
    let t = monthly_revenue_text();
    lemma_monthly_revenue_chars();
    lemma_lex_symbol(t, 169);
}

proof fn lemma_monthly_revenue_token_24()
    ensures
        lex_from(monthly_revenue_text(), 170) == join(seq![TokenView::Word("AVG"@)], lex_from(monthly_revenue_text(), 186)),
{
    let t = monthly_revenue_text();
    lemma_monthly_revenue_chars();
    lemma_lex_space(t, 170, 183);
    lemma_lex_word(t, 183, 186);
    reveal_strlit("AVG");
    assert(t.subrange(183, 186) =~= "AVG"@);
}

proof fn lemma_monthly_revenue_token_25()
    ensures
        lex_from(monthly_revenue_text(), 186) == join(seq![TokenView::LeftParen], lex_from(monthly_revenue_text(), 187)),
{
    let t = monthly_revenue_text();
    lemma_monthly_revenue_chars();
    lemma_lex_symbol(t, 186);
}

proof fn lemma_monthly_revenue_token_26()
    ensures
        lex_from(monthly_revenue_text(), 187) == join(seq![TokenView::Word("fare_amount"@)], lex_from(monthly_revenue_text(), 198)),
{
    let t = monthly_revenue_text();
    lemma_monthly_revenue_chars();
    lemma_lex_word(t, 187, 198);
    reveal_strlit("fare_amount");
    assert(t.subrange(187, 198) =~= "fare_amount"@);
}

proof fn lemma_monthly_revenue_token_27()
    ensures
        lex_from(monthly_revenue_text(), 198) == join(seq![TokenView::RightParen], lex_from(monthly_revenue_text(), 199)),
{
    let t = monthly_revenue_text();
    lemma_monthly_revenue_chars();
    lemma_lex_symbol(t, 198);
}

proof fn lemma_monthly_revenue_token_28()
    ensures
        lex_from(monthly_revenue_text(), 199) == join(seq![TokenView::Word("AS"@)], lex_from(monthly_revenue_text(), 202)),
{
    let t = monthly_revenue_text();
    lemma_monthly_revenue_chars();
    lemma_lex_space(t, 199, 200);
    lemma_lex_word(t, 200, 202);
    reveal_strlit("AS");
    assert(t.subrange(200, 202) =~= "AS"@);
}

proof fn lemma_monthly_revenue_token_29()
    ensures
        lex_from(monthly_revenue_text(), 202) == join(seq![TokenView::Word("avg_fare"@)], lex_from(monthly_revenue_text(), 211)),
{
    let t = monthly_revenue_text();
    lemma_monthly_revenue_chars();
    lemma_lex_space(t, 202, 203);
    lemma_lex_word(t, 203, 211);
    reveal_strlit("avg_fare");
    assert(t.subrange(203, 211) =~= "avg_fare"@);
}

proof fn lemma_monthly_revenue_token_30()
    ensures
        lex_from(monthly_revenue_text(), 211) == join(seq![TokenView::Word("FROM"@)], lex_from(monthly_revenue_text(), 224)),
{
    let t = monthly_revenue_text();
    lemma_monthly_revenue_chars();
    lemma_lex_space(t, 211, 220);
    lemma_lex_word(t, 220, 224);
    reveal_strlit("FROM");
    assert(t.subrange(220, 224) =~= "FROM"@);
}

proof fn lemma_monthly_revenue_token_31()
    ensures
        lex_from(monthly_revenue_text(), 224) == join(seq![TokenView::Word("yellow"@)], lex_from(monthly_revenue_text(), 231)),
{
    let t = monthly_revenue_text();
    lemma_monthly_revenue_chars();
    lemma_lex_space(t, 224, 225);
    lemma_lex_word(t, 225, 231);
    reveal_strlit("yellow");
    assert(t.subrange(225, 231) =~= "yellow"@);
}

proof fn lemma_monthly_revenue_token_32()
    ensures
        lex_from(monthly_revenue_text(), 231) == join(seq![TokenView::Word("GROUP"@)], lex_from(monthly_revenue_text(), 245)),
{
    let t = monthly_revenue_text();
    lemma_monthly_revenue_chars();
    lemma_lex_space(t, 231, 240);
    lemma_lex_word(t, 240, 245);
    reveal_strlit("GROUP");
    assert(t.subrange(240, 245) =~= "GROUP"@);
}

proof fn lemma_monthly_revenue_token_33()
    ensures
        lex_from(monthly_revenue_text(), 245) == join(seq![TokenView::Word("BY"@)], lex_from(monthly_revenue_text(), 248)),
{
    let t = monthly_revenue_text();
    lemma_monthly_revenue_chars();
    lemma_lex_space(t, 245, 246);
    lemma_lex_word(t, 246, 248);
    reveal_strlit("BY");
    assert(t.subrange(246, 248) =~= "BY"@);
}

proof fn lemma_monthly_revenue_token_34()
    ensures
        lex_from(monthly_revenue_text(), 248) == join(seq![TokenView::Number(1)], lex_from(monthly_revenue_text(), 250)),
{
    let t = monthly_revenue_text();
    lemma_monthly_revenue_chars();
    lemma_lex_space(t, 248, 249);
    lemma_lex_number(t, 249, 250);
    reveal_with_fuel(capped_value, 2);
    assert(t.subrange(249, 250).take(1).drop_last() =~= t.subrange(249, 250).take(0));
    assert(t.subrange(249, 250).take(1) =~= t.subrange(249, 250));
    assert(capped_value(t.subrange(249, 250)) == 1);
}

proof fn lemma_monthly_revenue_token_35()
    ensures
        lex_from(monthly_revenue_text(), 250) == join(seq![TokenView::Word("ORDER"@)], lex_from(monthly_revenue_text(), 264)),
{
    let t = monthly_revenue_text();
    lemma_monthly_revenue_chars();
    lemma_lex_space(t, 250, 259);
    lemma_lex_word(t, 259, 264);
    reveal_strlit("ORDER");
    assert(t.subrange(259, 264) =~= "ORDER"@);
}

proof fn lemma_monthly_revenue_token_36()
    ensures
        lex_from(monthly_revenue_text(), 264) == join(seq![TokenView::Word("BY"@)], lex_from(monthly_revenue_text(), 267)),
{
    let t = monthly_revenue_text();
    lemma_monthly_revenue_chars();
    lemma_lex_space(t, 264, 265);
    lemma_lex_word(t, 265, 267);
    reveal_strlit("BY");
    assert(t.subrange(265, 267) =~= "BY"@);
}

proof fn lemma_monthly_revenue_token_37()
    ensures
        lex_from(monthly_revenue_text(), 267) == join(seq![TokenView::Number(1)], lex_from(monthly_revenue_text(), 269)),
{
    let t = monthly_revenue_text();
    lemma_monthly_revenue_chars();
    lemma_lex_space(t, 267, 268);
    lemma_lex_number(t, 268, 269);
    reveal_with_fuel(capped_value, 2);
    assert(t.subrange(268, 269).take(1).drop_last() =~= t.subrange(268, 269).take(0));
    assert(t.subrange(268, 269).take(1) =~= t.subrange(268, 269));
    assert(capped_value(t.subrange(268, 269)) == 1);
}

proof fn lemma_monthly_revenue_token_38()
    ensures
        lex_from(monthly_revenue_text(), 269) == join(seq![TokenView::Word("ASC"@)], lex_from(monthly_revenue_text(), 273)),
{
    let t = monthly_revenue_text();
    lemma_monthly_revenue_chars();
    lemma_lex_space(t, 269, 270);
    lemma_lex_word(t, 270, 273);
    reveal_strlit("ASC");
    assert(t.subrange(270, 273) =~= "ASC"@);
}

/// The tokens of the text.
pub open spec fn monthly_revenue_tokens() -> Seq<TokenView> {
    seq![
        TokenView::Word("SELECT"@),
        TokenView::Word("date_trunc"@),
        TokenView::LeftParen,
        TokenView::Quoted("month"@),
        TokenView::Comma,
        TokenView::Word("tpep_pickup_datetime"@),
        TokenView::RightParen,
        TokenView::Word("AS"@),
        TokenView::Word("pickup_month"@),
        TokenView::Comma,
        TokenView::Word("COUNT"@),
        TokenView::LeftParen,
        TokenView::Star,
        TokenView::RightParen,
        TokenView::Word("AS"@),
        TokenView::Word("trip_count"@),
        TokenView::Comma,
        TokenView::Word("SUM"@),
        TokenView::LeftParen,
        TokenView::Word("total_amount"@),
        TokenView::RightParen,
        TokenView::Word("AS"@),
        TokenView::Word("total_revenue"@),
        TokenView::Comma,
        TokenView::Word("AVG"@),
        TokenView::LeftParen,
        TokenView::Word("fare_amount"@),
        TokenView::RightParen,
        TokenView::Word("AS"@),
        TokenView::Word("avg_fare"@),
        TokenView::Word("FROM"@),
        TokenView::Word("yellow"@),
        TokenView::Word("GROUP"@),
        TokenView::Word("BY"@),
        TokenView::Number(1),
        TokenView::Word("ORDER"@),
        TokenView::Word("BY"@),
        TokenView::Number(1),
        TokenView::Word("ASC"@),
    ]
}

/// The text is lexed into its tokens.
pub proof fn lemma_monthly_revenue_lexed()
    ensures
        tokens_of(monthly_revenue_text()) == Ok::<Seq<TokenView>, Error>(monthly_revenue_tokens()),
{
    let t = monthly_revenue_text();
    let all = monthly_revenue_tokens();
    lemma_monthly_revenue_chars();
    lemma_lex_space(t, 273, 278);
    assert(all.subrange(39, 39) =~= Seq::<TokenView>::empty());
    assert(lex_from(t, 273) == Ok::<Seq<TokenView>, Error>(all.subrange(39, 39)));
    lemma_monthly_revenue_token_38();
    assert(seq![all[38]] + all.subrange(39, 39) =~= all.subrange(38, 39));
    assert(lex_from(t, 269) == Ok::<Seq<TokenView>, Error>(all.subrange(38, 39)));
    lemma_monthly_revenue_token_37();
    assert(seq![all[37]] + all.subrange(38, 39) =~= all.subrange(37, 39));
    assert(lex_from(t, 267) == Ok::<Seq<TokenView>, Error>(all.subrange(37, 39)));
    lemma_monthly_revenue_token_36();
    assert(seq![all[36]] + all.subrange(37, 39) =~= all.subrange(36, 39));
    assert(lex_from(t, 264) == Ok::<Seq<TokenView>, Error>(all.subrange(36, 39)));
    lemma_monthly_revenue_token_35();
    assert(seq![all[35]] + all.subrange(36, 39) =~= all.subrange(35, 39));
    assert(lex_from(t, 250) == Ok::<Seq<TokenView>, Error>(all.subrange(35, 39)));
    lemma_monthly_revenue_token_34();
    assert(seq![all[34]] + all.subrange(35, 39) =~= all.subrange(34, 39));
    assert(lex_from(t, 248) == Ok::<Seq<TokenView>, Error>(all.subrange(34, 39)));
    lemma_monthly_revenue_token_33();
    assert(seq![all[33]] + all.subrange(34, 39) =~= all.subrange(33, 39));
    assert(lex_from(t, 245) == Ok::<Seq<TokenView>, Error>(all.subrange(33, 39)));
    lemma_monthly_revenue_token_32();
    assert(seq![all[32]] + all.subrange(33, 39) =~= all.subrange(32, 39));
    assert(lex_from(t, 231) == Ok::<Seq<TokenView>, Error>(all.subrange(32, 39)));
    lemma_monthly_revenue_token_31();
    assert(seq![all[31]] + all.subrange(32, 39) =~= all.subrange(31, 39));
    assert(lex_from(t, 224) == Ok::<Seq<TokenView>, Error>(all.subrange(31, 39)));
    lemma_monthly_revenue_token_30();
    assert(seq![all[30]] + all.subrange(31, 39) =~= all.subrange(30, 39));
    assert(lex_from(t, 211) == Ok::<Seq<TokenView>, Error>(all.subrange(30, 39)));
    lemma_monthly_revenue_token_29();
    assert(seq![all[29]] + all.subrange(30, 39) =~= all.subrange(29, 39));
    assert(lex_from(t, 202) == Ok::<Seq<TokenView>, Error>(all.subrange(29, 39)));
    lemma_monthly_revenue_token_28();
    assert(seq![all[28]] + all.subrange(29, 39) =~= all.subrange(28, 39));
    assert(lex_from(t, 199) == Ok::<Seq<TokenView>, Error>(all.subrange(28, 39)));
    lemma_monthly_revenue_token_27();
    assert(seq![all[27]] + all.subrange(28, 39) =~= all.subrange(27, 39));
    assert(lex_from(t, 198) == Ok::<Seq<TokenView>, Error>(all.subrange(27, 39)));
    lemma_monthly_revenue_token_26();
    assert(seq![all[26]] + all.subrange(27, 39) =~= all.subrange(26, 39));
    assert(lex_from(t, 187) == Ok::<Seq<TokenView>, Error>(all.subrange(26, 39)));
    lemma_monthly_revenue_token_25();
    assert(seq![all[25]] + all.subrange(26, 39) =~= all.subrange(25, 39));
    assert(lex_from(t, 186) == Ok::<Seq<TokenView>, Error>(all.subrange(25, 39)));
    lemma_monthly_revenue_token_24();
    assert(seq![all[24]] + all.subrange(25, 39) =~= all.subrange(24, 39));
    assert(lex_from(t, 170) == Ok::<Seq<TokenView>, Error>(all.subrange(24, 39)));
    lemma_monthly_revenue_token_23();
    assert(seq![all[23]] + all.subrange(24, 39) =~= all.subrange(23, 39));
    assert(lex_from(t, 169) == Ok::<Seq<TokenView>, Error>(all.subrange(23, 39)));
    lemma_monthly_revenue_token_22();
    assert(seq![all[22]] + all.subrange(23, 39) =~= all.subrange(22, 39));
    assert(lex_from(t, 155) == Ok::<Seq<TokenView>, Error>(all.subrange(22, 39)));
    lemma_monthly_revenue_token_21();
    assert(seq![all[21]] + all.subrange(22, 39) =~= all.subrange(21, 39));
    assert(lex_from(t, 152) == Ok::<Seq<TokenView>, Error>(all.subrange(21, 39)));
    lemma_monthly_revenue_token_20();
    assert(seq![all[20]] + all.subrange(21, 39) =~= all.subrange(20, 39));
    assert(lex_from(t, 151) == Ok::<Seq<TokenView>, Error>(all.subrange(20, 39)));
    lemma_monthly_revenue_token_19();
    assert(seq![all[19]] + all.subrange(20, 39) =~= all.subrange(19, 39));
    assert(lex_from(t, 139) == Ok::<Seq<TokenView>, Error>(all.subrange(19, 39)));
    lemma_monthly_revenue_token_18();
    assert(seq![all[18]] + all.subrange(19, 39) =~= all.subrange(18, 39));
    assert(lex_from(t, 138) == Ok::<Seq<TokenView>, Error>(all.subrange(18, 39)));
    lemma_monthly_revenue_token_17();
    assert(seq![all[17]] + all.subrange(18, 39) =~= all.subrange(17, 39));
    assert(lex_from(t, 122) == Ok::<Seq<TokenView>, Error>(all.subrange(17, 39)));
    lemma_monthly_revenue_token_16();
    assert(seq![all[16]] + all.subrange(17, 39) =~= all.subrange(16, 39));
    assert(lex_from(t, 121) == Ok::<Seq<TokenView>, Error>(all.subrange(16, 39)));
    lemma_monthly_revenue_token_15();
    assert(seq![all[15]] + all.subrange(16, 39) =~= all.subrange(15, 39));
    assert(lex_from(t, 110) == Ok::<Seq<TokenView>, Error>(all.subrange(15, 39)));
    lemma_monthly_revenue_token_14();
    assert(seq![all[14]] + all.subrange(15, 39) =~= all.subrange(14, 39));
    assert(lex_from(t, 107) == Ok::<Seq<TokenView>, Error>(all.subrange(14, 39)));
    lemma_monthly_revenue_token_13();
    assert(seq![all[13]] + all.subrange(14, 39) =~= all.subrange(13, 39));
    assert(lex_from(t, 106) == Ok::<Seq<TokenView>, Error>(all.subrange(13, 39)));
    lemma_monthly_revenue_token_12();
    assert(seq![all[12]] + all.subrange(13, 39) =~= all.subrange(12, 39));
    assert(lex_from(t, 105) == Ok::<Seq<TokenView>, Error>(all.subrange(12, 39)));
    lemma_monthly_revenue_token_11();
    assert(seq![all[11]] + all.subrange(12, 39) =~= all.subrange(11, 39));
    assert(lex_from(t, 104) == Ok::<Seq<TokenView>, Error>(all.subrange(11, 39)));
    lemma_monthly_revenue_token_10();
    assert(seq![all[10]] + all.subrange(11, 39) =~= all.subrange(10, 39));
    assert(lex_from(t, 86) == Ok::<Seq<TokenView>, Error>(all.subrange(10, 39)));
    lemma_monthly_revenue_token_9();
    assert(seq![all[9]] + all.subrange(10, 39) =~= all.subrange(9, 39));
    assert(lex_from(t, 85) == Ok::<Seq<TokenView>, Error>(all.subrange(9, 39)));
    lemma_monthly_revenue_token_8();
    assert(seq![all[8]] + all.subrange(9, 39) =~= all.subrange(8, 39));
    assert(lex_from(t, 72) == Ok::<Seq<TokenView>, Error>(all.subrange(8, 39)));
    lemma_monthly_revenue_token_7();
    assert(seq![all[7]] + all.subrange(8, 39) =~= all.subrange(7, 39));
    assert(lex_from(t, 69) == Ok::<Seq<TokenView>, Error>(all.subrange(7, 39)));
    lemma_monthly_revenue_token_6();
    assert(seq![all[6]] + all.subrange(7, 39) =~= all.subrange(6, 39));
    assert(lex_from(t, 68) == Ok::<Seq<TokenView>, Error>(all.subrange(6, 39)));
    lemma_monthly_revenue_token_5();
    assert(seq![all[5]] + all.subrange(6, 39) =~= all.subrange(5, 39));
    assert(lex_from(t, 47) == Ok::<Seq<TokenView>, Error>(all.subrange(5, 39)));
    lemma_monthly_revenue_token_4();
    assert(seq![all[4]] + all.subrange(5, 39) =~= all.subrange(4, 39));
    assert(lex_from(t, 46) == Ok::<Seq<TokenView>, Error>(all.subrange(4, 39)));
    lemma_monthly_revenue_token_3();
    assert(seq![all[3]] + all.subrange(4, 39) =~= all.subrange(3, 39));
    assert(lex_from(t, 39) == Ok::<Seq<TokenView>, Error>(all.subrange(3, 39)));
    lemma_monthly_revenue_token_2();
    assert(seq![all[2]] + all.subrange(3, 39) =~= all.subrange(2, 39));
    assert(lex_from(t, 38) == Ok::<Seq<TokenView>, Error>(all.subrange(2, 39)));
    lemma_monthly_revenue_token_1();
    assert(seq![all[1]] + all.subrange(2, 39) =~= all.subrange(1, 39));
    assert(lex_from(t, 15) == Ok::<Seq<TokenView>, Error>(all.subrange(1, 39)));
    lemma_monthly_revenue_token_0();
    assert(seq![all[0]] + all.subrange(1, 39) =~= all.subrange(0, 39));
    assert(lex_from(t, 0) == Ok::<Seq<TokenView>, Error>(all.subrange(0, 39)));
    assert(all.subrange(0, 39) =~= all);
}

/// How the words of the text compare with the words of the grammar.
proof fn lemma_monthly_revenue_words()
    ensures
        same_word("SELECT"@, "select"@),
        !same_word("SELECT"@, "from"@),
        !same_word("SELECT"@, "group"@),
        !same_word("SELECT"@, "by"@),
        !same_word("SELECT"@, "order"@),
        !same_word("SELECT"@, "as"@),
        !same_word("SELECT"@, "asc"@),
        !same_word("SELECT"@, "desc"@),
        !same_word("date_trunc"@, "count"@),
        !same_word("date_trunc"@, "sum"@),
        !same_word("date_trunc"@, "avg"@),
        same_word("date_trunc"@, "date_trunc"@),
        same_word("month"@, "month"@),
        !reserved("tpep_pickup_datetime"@),
        !same_word("AS"@, "select"@),
        !same_word("AS"@, "from"@),
        !same_word("AS"@, "group"@),
        !same_word("AS"@, "by"@),
        !same_word("AS"@, "order"@),
        same_word("AS"@, "as"@),
        !same_word("AS"@, "asc"@),
        !same_word("AS"@, "desc"@),
        !reserved("pickup_month"@),
        same_word("COUNT"@, "count"@),
        !reserved("trip_count"@),
        !same_word("SUM"@, "count"@),
        same_word("SUM"@, "sum"@),
        !reserved("total_amount"@),
        !reserved("total_revenue"@),
        !same_word("AVG"@, "count"@),
        !same_word("AVG"@, "sum"@),
        same_word("AVG"@, "avg"@),
        !reserved("fare_amount"@),
        !reserved("avg_fare"@),
        !same_word("FROM"@, "select"@),
        same_word("FROM"@, "from"@),
        !same_word("FROM"@, "group"@),
        !same_word("FROM"@, "by"@),
        !same_word("FROM"@, "order"@),
        !same_word("FROM"@, "as"@),
        !same_word("FROM"@, "asc"@),
        !same_word("FROM"@, "desc"@),
        !reserved("yellow"@),
        !same_word("GROUP"@, "select"@),
        !same_word("GROUP"@, "from"@),
        same_word("GROUP"@, "group"@),
        !same_word("GROUP"@, "by"@),
        !same_word("GROUP"@, "order"@),
        !same_word("GROUP"@, "as"@),
        !same_word("GROUP"@, "asc"@),
        !same_word("GROUP"@, "desc"@),
        !same_word("BY"@, "select"@),
        !same_word("BY"@, "from"@),
        !same_word("BY"@, "group"@),
        same_word("BY"@, "by"@),
        !same_word("BY"@, "order"@),
        !same_word("BY"@, "as"@),
        !same_word("BY"@, "asc"@),
        !same_word("BY"@, "desc"@),
        !same_word("ORDER"@, "select"@),
        !same_word("ORDER"@, "from"@),
        !same_word("ORDER"@, "group"@),
        !same_word("ORDER"@, "by"@),
        same_word("ORDER"@, "order"@),
        !same_word("ORDER"@, "as"@),
        !same_word("ORDER"@, "asc"@),
        !same_word("ORDER"@, "desc"@),
        !same_word("ASC"@, "select"@),
        !same_word("ASC"@, "from"@),
        !same_word("ASC"@, "group"@),
        !same_word("ASC"@, "by"@),
        !same_word("ASC"@, "order"@),
        !same_word("ASC"@, "as"@),
        same_word("ASC"@, "asc"@),
        !same_word("ASC"@, "desc"@),
{
    reveal_strlit("AS");
    reveal_strlit("ASC");
    reveal_strlit("AVG");
    reveal_strlit("BY");
    reveal_strlit("COUNT");
    reveal_strlit("FROM");
    reveal_strlit("GROUP");
    reveal_strlit("ORDER");
    reveal_strlit("SELECT");
    reveal_strlit("SUM");
    reveal_strlit("as");
    reveal_strlit("asc");
    reveal_strlit("avg");
    reveal_strlit("avg_fare");
    reveal_strlit("by");
    reveal_strlit("count");
    reveal_strlit("date_trunc");
    reveal_strlit("desc");
    reveal_strlit("fare_amount");
    reveal_strlit("from");
    reveal_strlit("group");
    reveal_strlit("month");
    reveal_strlit("order");
    reveal_strlit("pickup_month");
    reveal_strlit("select");
    reveal_strlit("sum");
    reveal_strlit("total_amount");
    reveal_strlit("total_revenue");
    reveal_strlit("tpep_pickup_datetime");
    reveal_strlit("trip_count");
    reveal_strlit("yellow");
    assert(letter_code("AS"@[0]) != letter_code("by"@[0]));
    assert(letter_code("AVG"@[0]) != letter_code("sum"@[0]));
    assert(letter_code("FROM"@[0]) != letter_code("desc"@[0]));
    assert(letter_code("yellow"@[0]) != letter_code("select"@[0]));
    assert(letter_code("GROUP"@[0]) != letter_code("order"@[0]));
    assert(letter_code("BY"@[0]) != letter_code("as"@[0]));
    assert(letter_code("ORDER"@[0]) != letter_code("group"@[0]));
}

/// The query that the text of trips and revenue by pickup month spells.
pub open spec fn monthly_revenue_query() -> QueryView {
    QueryView {
        items: seq![
            ItemView {
                term: TermView::Month("tpep_pickup_datetime"@),
                second: None,
                alias: Some("pickup_month"@),
            },
            ItemView { term: TermView::CountRows, second: None, alias: Some("trip_count"@) },
            ItemView {
                term: TermView::Sum("total_amount"@),
                second: None,
                alias: Some("total_revenue"@),
            },
            ItemView {
                term: TermView::Avg("fare_amount"@),
                second: None,
                alias: Some("avg_fare"@),
            },
        ],
        table: "yellow"@,
        group_by: seq![ReferenceView::Ordinal(1)],
        order_by: Some((ReferenceView::Ordinal(1), true)),
    }
}


proof fn lemma_monthly_revenue_item_0()
    ensures
        parse_item(monthly_revenue_tokens(), 1) == Ok::<(ItemView, int), Error>(
            (monthly_revenue_query().items[0], 9),
        ),
{
    lemma_monthly_revenue_words();
    assert(monthly_revenue_tokens().len() == 39);
}

proof fn lemma_monthly_revenue_item_1()
    ensures
        parse_item(monthly_revenue_tokens(), 10) == Ok::<(ItemView, int), Error>(
            (monthly_revenue_query().items[1], 16),
        ),
{
    lemma_monthly_revenue_words();
    assert(monthly_revenue_tokens().len() == 39);
}

proof fn lemma_monthly_revenue_item_2()
    ensures
        parse_item(monthly_revenue_tokens(), 17) == Ok::<(ItemView, int), Error>(
            (monthly_revenue_query().items[2], 23),
        ),
{
    lemma_monthly_revenue_words();
    assert(monthly_revenue_tokens().len() == 39);
}

proof fn lemma_monthly_revenue_item_3()
    ensures
        parse_item(monthly_revenue_tokens(), 24) == Ok::<(ItemView, int), Error>(
            (monthly_revenue_query().items[3], 30),
        ),
{
    lemma_monthly_revenue_words();
    assert(monthly_revenue_tokens().len() == 39);
}

/// The tokens of the text are read as its query.
pub proof fn lemma_monthly_revenue_parsed()
    ensures
        parse_tokens(monthly_revenue_tokens()) == Ok::<QueryView, Error>(monthly_revenue_query()),
{
    let tokens = monthly_revenue_tokens();
    let q = monthly_revenue_query();
    lemma_monthly_revenue_words();
    assert(tokens.len() == 39);
    lemma_monthly_revenue_item_0();
    lemma_monthly_revenue_item_1();
    lemma_monthly_revenue_item_2();
    lemma_monthly_revenue_item_3();
    let none = Seq::<ItemView>::empty();
    assert(none.push(q.items[0]).push(q.items[1]).push(q.items[2]).push(q.items[3]) =~= q.items);
    assert(parse_items(tokens, 24, none.push(q.items[0]).push(q.items[1]).push(q.items[2])) == Ok::<(Seq<ItemView>, int), Error>((q.items, 30)));
    assert(parse_items(tokens, 17, none.push(q.items[0]).push(q.items[1])) == Ok::<(Seq<ItemView>, int), Error>((q.items, 30)));
    assert(parse_items(tokens, 10, none.push(q.items[0])) == Ok::<(Seq<ItemView>, int), Error>((q.items, 30)));
    assert(parse_items(tokens, 1, none) == Ok::<(Seq<ItemView>, int), Error>((q.items, 30)));
    assert(Seq::<ReferenceView>::empty().push(q.group_by[0]) =~= q.group_by);
    assert(parse_references(tokens, 34, Seq::empty()) == Ok::<(Seq<ReferenceView>, int), Error>(
        (q.group_by, 35),
    ));
    assert(parse_group_by(tokens, 32) == Ok::<(Seq<ReferenceView>, int), Error>((q.group_by, 35)));
    assert(parse_order_by(tokens, 35) == Ok::<(Option<(ReferenceView, bool)>, int), Error>(
        (q.order_by, 39),
    ));
    assert(parse_tail(tokens, 30, q.items) == Ok::<QueryView, Error>(q));
}

/// The query of trips and revenue by pickup month has the plan that the
/// builder yields.
pub proof fn lemma_monthly_revenue_planned()
    ensures
        plan_of(monthly_revenue_query()) == Ok::<PlanView, Error>(monthly_revenue_plan()),
{
    let q = monthly_revenue_query();
    let plan = monthly_revenue_plan();
    lemma_monthly_revenue_names();
    let names = stage_names(plan.group_keys, plan.aggregates);
    assert(supported_items(q.items));
    let outcomes = Seq::new(q.group_by.len(), |i: int| group_key_of(q.items, q.group_by[i]));
    assert(outcomes[0] == Ok::<GroupKeyView, Error>(plan.group_keys[0]));
    assert(outcomes.drop_last() =~= Seq::empty());
    reveal_with_fuel(try_all, 2);
    assert(Seq::<GroupKeyView>::empty().push(plan.group_keys[0]) =~= plan.group_keys);
    assert(group_keys_of(q.items, q.group_by) == Ok::<Seq<GroupKeyView>, Error>(plan.group_keys));
    lemma_index_of_some(key_aliases(plan.group_keys), "pickup_month"@, 0);
    assert(keys_cover_items(q.items, plan.group_keys));
    lemma_monthly_revenue_aggregates();
    assert(item_names(q.items) =~= names);
    let base = PlanView::aggregated(q.table, plan.group_keys, plan.aggregates)->Ok_0;
    assert(shaped(base, q.items) == Ok::<PlanView, Error>(base));
    lemma_index_of_some(names, "pickup_month"@, 0);
    assert(seq![plan.sort_keys[0]] + Seq::<SortKeyView>::empty() =~= plan.sort_keys);
    assert(seq![plan.sort_keys[0]] =~= plan.sort_keys);
    assert(arranged(base, q.items, q.order_by) == Ok::<PlanView, Error>(plan));
}

proof fn lemma_monthly_revenue_aggregates()
    ensures
        aggregates_of(monthly_revenue_query().items) == monthly_revenue_plan().aggregates,
{
    let items = monthly_revenue_query().items;
    let wanted = monthly_revenue_plan().aggregates;
    let i3 = items.drop_last();
    let i2 = i3.drop_last();
    let i1 = i2.drop_last();
    let i0 = i1.drop_last();
    assert(i0.len() == 0);
    assert(aggregates_of(i0) =~= Seq::empty());
    assert(aggregates_of(i1) =~= Seq::empty());
    assert(aggregates_of(i2) =~= seq![wanted[0]]);
    assert(aggregates_of(i3) =~= seq![wanted[0], wanted[1]]);
    assert(aggregates_of(items) =~= wanted);
}


/// Trips and revenue by pickup month: the text is interpreted as the plan of the builder, and so
/// both surfaces give the same outcome on every table, the same error or the
/// same result, cell for cell and in the same row order.
pub proof fn monthly_revenue_surfaces_agree(name: Seq<char>, schema: Seq<ColumnView>, rows: Seq<Seq<Value>>)
    ensures
        interpret(monthly_revenue_text()) == Ok::<PlanView, Error>(monthly_revenue_plan()),
        outcome(interpret(monthly_revenue_text())->Ok_0, name, schema, rows) == outcome(
            monthly_revenue_plan(),
            name,
            schema,
            rows,
        ),
{
    lemma_monthly_revenue_lexed();
    lemma_monthly_revenue_parsed();
    lemma_monthly_revenue_planned();
}

/// Reads the plan of the aggregation from its text. Reading cannot fail, and
/// the plan is the one that the builder yields.
pub fn monthly_revenue_from_text() -> (plan: Plan)
    ensures
        plan@ == monthly_revenue_plan(),
        plan@.wf(),
{
    proof {
        monthly_revenue_surfaces_agree(Seq::empty(), Seq::empty(), Seq::empty());
    }
    parse(monthly_revenue_sql()).unwrap()
}


/// The characters of the text.
proof fn lemma_tip_behavior_chars()
    ensures
        ({
            let t = tip_behavior_text();
            &&& t.len() == 261
            &&& t[0] == '\n' &&& t[1] == ' ' &&& t[2] == ' ' &&& t[3] == ' ' &&& t[4] == ' '
            &&& t[5] == ' ' &&& t[6] == ' ' &&& t[7] == ' ' &&& t[8] == ' ' &&& t[9] == 'S'
            &&& t[10] == 'E' &&& t[11] == 'L' &&& t[12] == 'E' &&& t[13] == 'C' &&& t[14] == 'T'
            &&& t[15] == '\n' &&& t[16] == ' ' &&& t[17] == ' ' &&& t[18] == ' ' &&& t[19] == ' '
            &&& t[20] == ' ' &&& t[21] == ' ' &&& t[22] == ' ' &&& t[23] == ' ' &&& t[24] == ' '
            &&& t[25] == ' ' &&& t[26] == ' ' &&& t[27] == ' ' &&& t[28] == 'p' &&& t[29] == 'a'
            &&& t[30] == 'y' &&& t[31] == 'm' &&& t[32] == 'e' &&& t[33] == 'n' &&& t[34] == 't'
            &&& t[35] == '_' &&& t[36] == 't' &&& t[37] == 'y' &&& t[38] == 'p' &&& t[39] == 'e'
            &&& t[40] == ',' &&& t[41] == '\n' &&& t[42] == ' ' &&& t[43] == ' ' &&& t[44] == ' '
            &&& t[45] == ' ' &&& t[46] == ' ' &&& t[47] == ' ' &&& t[48] == ' ' &&& t[49] == ' '
            &&& t[50] == ' ' &&& t[51] == ' ' &&& t[52] == ' ' &&& t[53] == ' ' &&& t[54] == 'C'
            &&& t[55] == 'O' &&& t[56] == 'U' &&& t[57] == 'N' &&& t[58] == 'T' &&& t[59] == '('
            &&& t[60] == '*' &&& t[61] == ')' &&& t[62] == ' ' &&& t[63] == 'A' &&& t[64] == 'S'
            &&& t[65] == ' ' &&& t[66] == 't' &&& t[67] == 'r' &&& t[68] == 'i' &&& t[69] == 'p'
            &&& t[70] == '_' &&& t[71] == 'c' &&& t[72] == 'o' &&& t[73] == 'u' &&& t[74] == 'n'
            &&& t[75] == 't' &&& t[76] == ',' &&& t[77] == '\n' &&& t[78] == ' ' &&& t[79] == ' '
            &&& t[80] == ' ' &&& t[81] == ' ' &&& t[82] == ' ' &&& t[83] == ' ' &&& t[84] == ' '
            &&& t[85] == ' ' &&& t[86] == ' ' &&& t[87] == ' ' &&& t[88] == ' ' &&& t[89] == ' '
            &&& t[90] == 'A' &&& t[91] == 'V' &&& t[92] == 'G' &&& t[93] == '(' &&& t[94] == 't'
            &&& t[95] == 'i' &&& t[96] == 'p' &&& t[97] == '_' &&& t[98] == 'a' &&& t[99] == 'm'
            &&& t[100] == 'o' &&& t[101] == 'u' &&& t[102] == 'n' &&& t[103] == 't' &&& t[104] == ')'
            &&& t[105] == ' ' &&& t[106] == 'A' &&& t[107] == 'S' &&& t[108] == ' ' &&& t[109] == 'a'
            &&& t[110] == 'v' &&& t[111] == 'g' &&& t[112] == '_' &&& t[113] == 't' &&& t[114] == 'i'
            &&& t[115] == 'p' &&& t[116] == '_' &&& t[117] == 'a' &&& t[118] == 'm' &&& t[119] == 'o'
            &&& t[120] == 'u' &&& t[121] == 'n' &&& t[122] == 't' &&& t[123] == ',' &&& t[124] == '\n'
            &&& t[125] == ' ' &&& t[126] == ' ' &&& t[127] == ' ' &&& t[128] == ' ' &&& t[129] == ' '
            &&& t[130] == ' ' &&& t[131] == ' ' &&& t[132] == ' ' &&& t[133] == ' ' &&& t[134] == ' '
            &&& t[135] == ' ' &&& t[136] == ' ' &&& t[137] == 'S' &&& t[138] == 'U' &&& t[139] == 'M'
            &&& t[140] == '(' &&& t[141] == 't' &&& t[142] == 'i' &&& t[143] == 'p' &&& t[144] == '_'
            &&& t[145] == 'a' &&& t[146] == 'm' &&& t[147] == 'o' &&& t[148] == 'u' &&& t[149] == 'n'
            &&& t[150] == 't' &&& t[151] == ')' &&& t[152] == ' ' &&& t[153] == '/' &&& t[154] == ' '
            &&& t[155] == 'S' &&& t[156] == 'U' &&& t[157] == 'M' &&& t[158] == '(' &&& t[159] == 't'
            &&& t[160] == 'o' &&& t[161] == 't' &&& t[162] == 'a' &&& t[163] == 'l' &&& t[164] == '_'
            &&& t[165] == 'a' &&& t[166] == 'm' &&& t[167] == 'o' &&& t[168] == 'u' &&& t[169] == 'n'
            &&& t[170] == 't' &&& t[171] == ')' &&& t[172] == ' ' &&& t[173] == 'A' &&& t[174] == 'S'
            &&& t[175] == ' ' &&& t[176] == 't' &&& t[177] == 'i' &&& t[178] == 'p' &&& t[179] == '_'
            &&& t[180] == 'r' &&& t[181] == 'a' &&& t[182] == 't' &&& t[183] == 'e' &&& t[184] == '\n'
            &&& t[185] == ' ' &&& t[186] == ' ' &&& t[187] == ' ' &&& t[188] == ' ' &&& t[189] == ' '
            &&& t[190] == ' ' &&& t[191] == ' ' &&& t[192] == ' ' &&& t[193] == 'F' &&& t[194] == 'R'
            &&& t[195] == 'O' &&& t[196] == 'M' &&& t[197] == ' ' &&& t[198] == 'y' &&& t[199] == 'e'
            &&& t[200] == 'l' &&& t[201] == 'l' &&& t[202] == 'o' &&& t[203] == 'w' &&& t[204] == '\n'
            &&& t[205] == ' ' &&& t[206] == ' ' &&& t[207] == ' ' &&& t[208] == ' ' &&& t[209] == ' '
            &&& t[210] == ' ' &&& t[211] == ' ' &&& t[212] == ' ' &&& t[213] == 'G' &&& t[214] == 'R'
            &&& t[215] == 'O' &&& t[216] == 'U' &&& t[217] == 'P' &&& t[218] == ' ' &&& t[219] == 'B'
            &&& t[220] == 'Y' &&& t[221] == ' ' &&& t[222] == '1' &&& t[223] == '\n' &&& t[224] == ' '
            &&& t[225] == ' ' &&& t[226] == ' ' &&& t[227] == ' ' &&& t[228] == ' ' &&& t[229] == ' '
            &&& t[230] == ' ' &&& t[231] == ' ' &&& t[232] == 'O' &&& t[233] == 'R' &&& t[234] == 'D'
            &&& t[235] == 'E' &&& t[236] == 'R' &&& t[237] == ' ' &&& t[238] == 'B' &&& t[239] == 'Y'
            &&& t[240] == ' ' &&& t[241] == 't' &&& t[242] == 'r' &&& t[243] == 'i' &&& t[244] == 'p'
            &&& t[245] == '_' &&& t[246] == 'c' &&& t[247] == 'o' &&& t[248] == 'u' &&& t[249] == 'n'
            &&& t[250] == 't' &&& t[251] == ' ' &&& t[252] == 'D' &&& t[253] == 'E' &&& t[254] == 'S'
            &&& t[255] == 'C' &&& t[256] == '\n' &&& t[257] == ' ' &&& t[258] == ' ' &&& t[259] == ' '
            &&& t[260] == ' '
        }),
{
    reveal_strlit("
        SELECT
            payment_type,
            COUNT(*) AS trip_count,
            AVG(tip_amount) AS avg_tip_amount,
            SUM(tip_amount) / SUM(total_amount) AS tip_rate
        FROM yellow
        GROUP BY 1
        ORDER BY trip_count DESC
    ");
}

proof fn lemma_tip_behavior_token_0()
    ensures
        lex_from(tip_behavior_text(), 0) == join(seq![TokenView::Word("SELECT"@)], lex_from(tip_behavior_text(), 15)),
{
    let t = tip_behavior_text();
    lemma_tip_behavior_chars();
    lemma_lex_space(t, 0, 9);
    lemma_lex_word(t, 9, 15);
    reveal_strlit("SELECT");
    assert(t.subrange(9, 15) =~= "SELECT"@);
}

proof fn lemma_tip_behavior_token_1()
    ensures
        lex_from(tip_behavior_text(), 15) == join(seq![TokenView::Word("payment_type"@)], lex_from(tip_behavior_text(), 40)),
{
    let t = tip_behavior_text();
    lemma_tip_behavior_chars();
    lemma_lex_space(t, 15, 28);
    lemma_lex_word(t, 28, 40);
    reveal_strlit("payment_type");
    assert(t.subrange(28, 40) =~= "payment_type"@);
}

proof fn lemma_tip_behavior_token_2()
    ensures
        lex_from(tip_behavior_text(), 40) == join(seq![TokenView::Comma], lex_from(tip_behavior_text(), 41)),
{
    let t = tip_behavior_text();
    lemma_tip_behavior_chars();
    lemma_lex_symbol(t, 40);
}

proof fn lemma_tip_behavior_token_3()
    ensures
        lex_from(tip_behavior_text(), 41) == join(seq![TokenView::Word("COUNT"@)], lex_from(tip_behavior_text(), 59)),
{
    let t = tip_behavior_text();
    lemma_tip_behavior_chars();
    lemma_lex_space(t, 41, 54);
    lemma_lex_word(t, 54, 59);
    reveal_strlit("COUNT");
    assert(t.subrange(54, 59) =~= "COUNT"@);
}

proof fn lemma_tip_behavior_token_4()
    ensures
        lex_from(tip_behavior_text(), 59) == join(seq![TokenView::LeftParen], lex_from(tip_behavior_text(), 60)),
{
    let t = tip_behavior_text();
    lemma_tip_behavior_chars();
    lemma_lex_symbol(t, 59);
}

proof fn lemma_tip_behavior_token_5()
    ensures
        lex_from(tip_behavior_text(), 60) == join(seq![TokenView::Star], lex_from(tip_behavior_text(), 61)),
{
    let t = tip_behavior_text();
    lemma_tip_behavior_chars();
    lemma_lex_symbol(t, 60);
}

proof fn lemma_tip_behavior_token_6()
    ensures
        lex_from(tip_behavior_text(), 61) == join(seq![TokenView::RightParen], lex_from(tip_behavior_text(), 62)),
{
    let t = tip_behavior_text();
    lemma_tip_behavior_chars();
    lemma_lex_symbol(t, 61);
}

proof fn lemma_tip_behavior_token_7()
    ensures
        lex_from(tip_behavior_text(), 62) == join(seq![TokenView::Word("AS"@)], lex_from(tip_behavior_text(), 65)),
{
    let t = tip_behavior_text();
    lemma_tip_behavior_chars();
    lemma_lex_space(t, 62, 63);
    lemma_lex_word(t, 63, 65);
    reveal_strlit("AS");
    assert(t.subrange(63, 65) =~= "AS"@);
}

proof fn lemma_tip_behavior_token_8()
    ensures
        lex_from(tip_behavior_text(), 65) == join(seq![TokenView::Word("trip_count"@)], lex_from(tip_behavior_text(), 76)),
{
    let t = tip_behavior_text();
    lemma_tip_behavior_chars();
    lemma_lex_space(t, 65, 66);
    lemma_lex_word(t, 66, 76);
    reveal_strlit("trip_count");
    assert(t.subrange(66, 76) =~= "trip_count"@);
}

proof fn lemma_tip_behavior_token_9()
    ensures
        lex_from(tip_behavior_text(), 76) == join(seq![TokenView::Comma], lex_from(tip_behavior_text(), 77)),
{
    let t = tip_behavior_text();
    lemma_tip_behavior_chars();
    lemma_lex_symbol(t, 76);
}

proof fn lemma_tip_behavior_token_10()
    ensures
        lex_from(tip_behavior_text(), 77) == join(seq![TokenView::Word("AVG"@)], lex_from(tip_behavior_text(), 93)),
{
    let t = tip_behavior_text();
    lemma_tip_behavior_chars();
    lemma_lex_space(t, 77, 90);
    lemma_lex_word(t, 90, 93);
    reveal_strlit("AVG");
    assert(t.subrange(90, 93) =~= "AVG"@);
}

proof fn lemma_tip_behavior_token_11()
    ensures
        lex_from(tip_behavior_text(), 93) == join(seq![TokenView::LeftParen], lex_from(tip_behavior_text(), 94)),
{
    let t = tip_behavior_text();
    lemma_tip_behavior_chars();
    lemma_lex_symbol(t, 93);
}

proof fn lemma_tip_behavior_token_12()
    ensures
        lex_from(tip_behavior_text(), 94) == join(seq![TokenView::Word("tip_amount"@)], lex_from(tip_behavior_text(), 104)),
{
    let t = tip_behavior_text();
    lemma_tip_behavior_chars();
    lemma_lex_word(t, 94, 104);
    reveal_strlit("tip_amount");
    assert(t.subrange(94, 104) =~= "tip_amount"@);
}

proof fn lemma_tip_behavior_token_13()
    ensures
        lex_from(tip_behavior_text(), 104) == join(seq![TokenView::RightParen], lex_from(tip_behavior_text(), 105)),
{
    let t = tip_behavior_text();
    lemma_tip_behavior_chars();
    lemma_lex_symbol(t, 104);
}

proof fn lemma_tip_behavior_token_14()
    ensures
        lex_from(tip_behavior_text(), 105) == join(seq![TokenView::Word("AS"@)], lex_from(tip_behavior_text(), 108)),
{
    let t = tip_behavior_text();
    lemma_tip_behavior_chars();
    lemma_lex_space(t, 105, 106);
    lemma_lex_word(t, 106, 108);
    reveal_strlit("AS");
    assert(t.subrange(106, 108) =~= "AS"@);
}

proof fn lemma_tip_behavior_token_15()
    ensures
        lex_from(tip_behavior_text(), 108) == join(seq![TokenView::Word("avg_tip_amount"@)], lex_from(tip_behavior_text(), 123)),
{
    let t = tip_behavior_text();
    lemma_tip_behavior_chars();
    lemma_lex_space(t, 108, 109);
    lemma_lex_word(t, 109, 123);
    reveal_strlit("avg_tip_amount");
    assert(t.subrange(109, 123) =~= "avg_tip_amount"@);
}

proof fn lemma_tip_behavior_token_16()
    ensures
        lex_from(tip_behavior_text(), 123) == join(seq![TokenView::Comma], lex_from(tip_behavior_text(), 124)),
{
    let t = tip_behavior_text();
    lemma_tip_behavior_chars();
    lemma_lex_symbol(t, 123);
}

proof fn lemma_tip_behavior_token_17()
    ensures
        lex_from(tip_behavior_text(), 124) == join(seq![TokenView::Word("SUM"@)], lex_from(tip_behavior_text(), 140)),
{
    let t = tip_behavior_text();
    lemma_tip_behavior_chars();
    lemma_lex_space(t, 124, 137);
    lemma_lex_word(t, 137, 140);
    reveal_strlit("SUM");
    assert(t.subrange(137, 140) =~= "SUM"@);
}

proof fn lemma_tip_behavior_token_18()
    ensures
        lex_from(tip_behavior_text(), 140) == join(seq![TokenView::LeftParen], lex_from(tip_behavior_text(), 141)),
{
    let t = tip_behavior_text();
    lemma_tip_behavior_chars();
    lemma_lex_symbol(t, 140);
}

proof fn lemma_tip_behavior_token_19()
    ensures
        lex_from(tip_behavior_text(), 141) == join(seq![TokenView::Word("tip_amount"@)], lex_from(tip_behavior_text(), 151)),
{
    let t = tip_behavior_text();
    lemma_tip_behavior_chars();
    lemma_lex_word(t, 141, 151);
    reveal_strlit("tip_amount");
    assert(t.subrange(141, 151) =~= "tip_amount"@);
}

proof fn lemma_tip_behavior_token_20()
    ensures
        lex_from(tip_behavior_text(), 151) == join(seq![TokenView::RightParen], lex_from(tip_behavior_text(), 152)),
{
    let t = tip_behavior_text();
    lemma_tip_behavior_chars();
    lemma_lex_symbol(t, 151);
}

proof fn lemma_tip_behavior_token_21()
    ensures
        lex_from(tip_behavior_text(), 152) == join(seq![TokenView::Slash], lex_from(tip_behavior_text(), 154)),
{
    let t = tip_behavior_text();
    lemma_tip_behavior_chars();
    lemma_lex_space(t, 152, 153);
    lemma_lex_symbol(t, 153);
}

proof fn lemma_tip_behavior_token_22()
    ensures
        lex_from(tip_behavior_text(), 154) == join(seq![TokenView::Word("SUM"@)], lex_from(tip_behavior_text(), 158)),
{
    let t = tip_behavior_text();
    lemma_tip_behavior_chars();
    lemma_lex_space(t, 154, 155);
    lemma_lex_word(t, 155, 158);
    reveal_strlit("SUM");
    assert(t.subrange(155, 158) =~= "SUM"@);
}

proof fn lemma_tip_behavior_token_23()
    ensures
        lex_from(tip_behavior_text(), 158) == join(seq![TokenView::LeftParen], lex_from(tip_behavior_text(), 159)),
{
    let t = tip_behavior_text();
    lemma_tip_behavior_chars();
    lemma_lex_symbol(t, 158);
}

proof fn lemma_tip_behavior_token_24()
    ensures
        lex_from(tip_behavior_text(), 159) == join(seq![TokenView::Word("total_amount"@)], lex_from(tip_behavior_text(), 171)),
{
    let t = tip_behavior_text();
    lemma_tip_behavior_chars();
    lemma_lex_word(t, 159, 171);
    reveal_strlit("total_amount");
    assert(t.subrange(159, 171) =~= "total_amount"@);
}

proof fn lemma_tip_behavior_token_25()
    ensures
        lex_from(tip_behavior_text(), 171) == join(seq![TokenView::RightParen], lex_from(tip_behavior_text(), 172)),
{
    let t = tip_behavior_text();
    lemma_tip_behavior_chars();
    lemma_lex_symbol(t, 171);
}

proof fn lemma_tip_behavior_token_26()
    ensures
        lex_from(tip_behavior_text(), 172) == join(seq![TokenView::Word("AS"@)], lex_from(tip_behavior_text(), 175)),
{
    let t = tip_behavior_text();
    lemma_tip_behavior_chars();
    lemma_lex_space(t, 172, 173);
    lemma_lex_word(t, 173, 175);
    reveal_strlit("AS");
    assert(t.subrange(173, 175) =~= "AS"@);
}

proof fn lemma_tip_behavior_token_27()
    ensures
        lex_from(tip_behavior_text(), 175) == join(seq![TokenView::Word("tip_rate"@)], lex_from(tip_behavior_text(), 184)),
{
    let t = tip_behavior_text();
    lemma_tip_behavior_chars();
    lemma_lex_space(t, 175, 176);
    lemma_lex_word(t, 176, 184);
    reveal_strlit("tip_rate");
    assert(t.subrange(176, 184) =~= "tip_rate"@);
}

proof fn lemma_tip_behavior_token_28()
    ensures
        lex_from(tip_behavior_text(), 184) == join(seq![TokenView::Word("FROM"@)], lex_from(tip_behavior_text(), 197)),
{
    let t = tip_behavior_text();
    lemma_tip_behavior_chars();
    lemma_lex_space(t, 184, 193);
    lemma_lex_word(t, 193, 197);
    reveal_strlit("FROM");
    assert(t.subrange(193, 197) =~= "FROM"@);
}

proof fn lemma_tip_behavior_token_29()
    ensures
        lex_from(tip_behavior_text(), 197) == join(seq![TokenView::Word("yellow"@)], lex_from(tip_behavior_text(), 204)),
{
    let t = tip_behavior_text();
    lemma_tip_behavior_chars();
    lemma_lex_space(t, 197, 198);
    lemma_lex_word(t, 198, 204);
    reveal_strlit("yellow");
    assert(t.subrange(198, 204) =~= "yellow"@);
}

proof fn lemma_tip_behavior_token_30()
    ensures
        lex_from(tip_behavior_text(), 204) == join(seq![TokenView::Word("GROUP"@)], lex_from(tip_behavior_text(), 218)),
{
    let t = tip_behavior_text();
    lemma_tip_behavior_chars();
    lemma_lex_space(t, 204, 213);
    lemma_lex_word(t, 213, 218);
    reveal_strlit("GROUP");
    assert(t.subrange(213, 218) =~= "GROUP"@);
}

proof fn lemma_tip_behavior_token_31()
    ensures
        lex_from(tip_behavior_text(), 218) == join(seq![TokenView::Word("BY"@)], lex_from(tip_behavior_text(), 221)),
{
    let t = tip_behavior_text();
    lemma_tip_behavior_chars();
    lemma_lex_space(t, 218, 219);
    lemma_lex_word(t, 219, 221);
    reveal_strlit("BY");
    assert(t.subrange(219, 221) =~= "BY"@);
}

proof fn lemma_tip_behavior_token_32()
    ensures
        lex_from(tip_behavior_text(), 221) == join(seq![TokenView::Number(1)], lex_from(tip_behavior_text(), 223)),
{
    let t = tip_behavior_text();
    lemma_tip_behavior_chars();
    lemma_lex_space(t, 221, 222);
    lemma_lex_number(t, 222, 223);
    reveal_with_fuel(capped_value, 2);
    assert(t.subrange(222, 223).take(1).drop_last() =~= t.subrange(222, 223).take(0));
    assert(t.subrange(222, 223).take(1) =~= t.subrange(222, 223));
    assert(capped_value(t.subrange(222, 223)) == 1);
}

proof fn lemma_tip_behavior_token_33()
    ensures
        lex_from(tip_behavior_text(), 223) == join(seq![TokenView::Word("ORDER"@)], lex_from(tip_behavior_text(), 237)),
{
    let t = tip_behavior_text();
    lemma_tip_behavior_chars();
    lemma_lex_space(t, 223, 232);
    lemma_lex_word(t, 232, 237);
    reveal_strlit("ORDER");
    assert(t.subrange(232, 237) =~= "ORDER"@);
}

proof fn lemma_tip_behavior_token_34()
    ensures
        lex_from(tip_behavior_text(), 237) == join(seq![TokenView::Word("BY"@)], lex_from(tip_behavior_text(), 240)),
{
    let t = tip_behavior_text();
    lemma_tip_behavior_chars();
    lemma_lex_space(t, 237, 238);
    lemma_lex_word(t, 238, 240);
    reveal_strlit("BY");
    assert(t.subrange(238, 240) =~= "BY"@);
}

proof fn lemma_tip_behavior_token_35()
    ensures
        lex_from(tip_behavior_text(), 240) == join(seq![TokenView::Word("trip_count"@)], lex_from(tip_behavior_text(), 251)),
{
    let t = tip_behavior_text();
    lemma_tip_behavior_chars();
    lemma_lex_space(t, 240, 241);
    lemma_lex_word(t, 241, 251);
    reveal_strlit("trip_count");
    assert(t.subrange(241, 251) =~= "trip_count"@);
}

proof fn lemma_tip_behavior_token_36()
    ensures
        lex_from(tip_behavior_text(), 251) == join(seq![TokenView::Word("DESC"@)], lex_from(tip_behavior_text(), 256)),
{
    let t = tip_behavior_text();
    lemma_tip_behavior_chars();
    lemma_lex_space(t, 251, 252);
    lemma_lex_word(t, 252, 256);
    reveal_strlit("DESC");
    assert(t.subrange(252, 256) =~= "DESC"@);
}

/// The tokens of the text.
pub open spec fn tip_behavior_tokens() -> Seq<TokenView> {
    seq![
        TokenView::Word("SELECT"@),
        TokenView::Word("payment_type"@),
        TokenView::Comma,
        TokenView::Word("COUNT"@),
        TokenView::LeftParen,
        TokenView::Star,
        TokenView::RightParen,
        TokenView::Word("AS"@),
        TokenView::Word("trip_count"@),
        TokenView::Comma,
        TokenView::Word("AVG"@),
        TokenView::LeftParen,
        TokenView::Word("tip_amount"@),
        TokenView::RightParen,
        TokenView::Word("AS"@),
        TokenView::Word("avg_tip_amount"@),
        TokenView::Comma,
        TokenView::Word("SUM"@),
        TokenView::LeftParen,
        TokenView::Word("tip_amount"@),
        TokenView::RightParen,
        TokenView::Slash,
        TokenView::Word("SUM"@),
        TokenView::LeftParen,
        TokenView::Word("total_amount"@),
        TokenView::RightParen,
        TokenView::Word("AS"@),
        TokenView::Word("tip_rate"@),
        TokenView::Word("FROM"@),
        TokenView::Word("yellow"@),
        TokenView::Word("GROUP"@),
        TokenView::Word("BY"@),
        TokenView::Number(1),
        TokenView::Word("ORDER"@),
        TokenView::Word("BY"@),
        TokenView::Word("trip_count"@),
        TokenView::Word("DESC"@),
    ]
}

/// The text is lexed into its tokens.
pub proof fn lemma_tip_behavior_lexed()
    ensures
        tokens_of(tip_behavior_text()) == Ok::<Seq<TokenView>, Error>(tip_behavior_tokens()),
{
    let t = tip_behavior_text();
    let all = tip_behavior_tokens();
    lemma_tip_behavior_chars();
    lemma_lex_space(t, 256, 261);
    assert(all.subrange(37, 37) =~= Seq::<TokenView>::empty());
    assert(lex_from(t, 256) == Ok::<Seq<TokenView>, Error>(all.subrange(37, 37)));
    lemma_tip_behavior_token_36();
    assert(seq![all[36]] + all.subrange(37, 37) =~= all.subrange(36, 37));
    assert(lex_from(t, 251) == Ok::<Seq<TokenView>, Error>(all.subrange(36, 37)));
    lemma_tip_behavior_token_35();
    assert(seq![all[35]] + all.subrange(36, 37) =~= all.subrange(35, 37));
    assert(lex_from(t, 240) == Ok::<Seq<TokenView>, Error>(all.subrange(35, 37)));
    lemma_tip_behavior_token_34();
    assert(seq![all[34]] + all.subrange(35, 37) =~= all.subrange(34, 37));
    assert(lex_from(t, 237) == Ok::<Seq<TokenView>, Error>(all.subrange(34, 37)));
    lemma_tip_behavior_token_33();
    assert(seq![all[33]] + all.subrange(34, 37) =~= all.subrange(33, 37));
    assert(lex_from(t, 223) == Ok::<Seq<TokenView>, Error>(all.subrange(33, 37)));
    lemma_tip_behavior_token_32();
    assert(seq![all[32]] + all.subrange(33, 37) =~= all.subrange(32, 37));
    assert(lex_from(t, 221) == Ok::<Seq<TokenView>, Error>(all.subrange(32, 37)));
    lemma_tip_behavior_token_31();
    assert(seq![all[31]] + all.subrange(32, 37) =~= all.subrange(31, 37));
    assert(lex_from(t, 218) == Ok::<Seq<TokenView>, Error>(all.subrange(31, 37)));
    lemma_tip_behavior_token_30();
    assert(seq![all[30]] + all.subrange(31, 37) =~= all.subrange(30, 37));
    assert(lex_from(t, 204) == Ok::<Seq<TokenView>, Error>(all.subrange(30, 37)));
    lemma_tip_behavior_token_29();
    assert(seq![all[29]] + all.subrange(30, 37) =~= all.subrange(29, 37));
    assert(lex_from(t, 197) == Ok::<Seq<TokenView>, Error>(all.subrange(29, 37)));
    lemma_tip_behavior_token_28();
    assert(seq![all[28]] + all.subrange(29, 37) =~= all.subrange(28, 37));
    assert(lex_from(t, 184) == Ok::<Seq<TokenView>, Error>(all.subrange(28, 37)));
    lemma_tip_behavior_token_27();
    assert(seq![all[27]] + all.subrange(28, 37) =~= all.subrange(27, 37));
    assert(lex_from(t, 175) == Ok::<Seq<TokenView>, Error>(all.subrange(27, 37)));
    lemma_tip_behavior_token_26();
    assert(seq![all[26]] + all.subrange(27, 37) =~= all.subrange(26, 37));
    assert(lex_from(t, 172) == Ok::<Seq<TokenView>, Error>(all.subrange(26, 37)));
    lemma_tip_behavior_token_25();
    assert(seq![all[25]] + all.subrange(26, 37) =~= all.subrange(25, 37));
    assert(lex_from(t, 171) == Ok::<Seq<TokenView>, Error>(all.subrange(25, 37)));
    lemma_tip_behavior_token_24();
    assert(seq![all[24]] + all.subrange(25, 37) =~= all.subrange(24, 37));
    assert(lex_from(t, 159) == Ok::<Seq<TokenView>, Error>(all.subrange(24, 37)));
    lemma_tip_behavior_token_23();
    assert(seq![all[23]] + all.subrange(24, 37) =~= all.subrange(23, 37));
    assert(lex_from(t, 158) == Ok::<Seq<TokenView>, Error>(all.subrange(23, 37)));
    lemma_tip_behavior_token_22();
    assert(seq![all[22]] + all.subrange(23, 37) =~= all.subrange(22, 37));
    assert(lex_from(t, 154) == Ok::<Seq<TokenView>, Error>(all.subrange(22, 37)));
    lemma_tip_behavior_token_21();
    assert(seq![all[21]] + all.subrange(22, 37) =~= all.subrange(21, 37));
    assert(lex_from(t, 152) == Ok::<Seq<TokenView>, Error>(all.subrange(21, 37)));
    lemma_tip_behavior_token_20();
    assert(seq![all[20]] + all.subrange(21, 37) =~= all.subrange(20, 37));
    assert(lex_from(t, 151) == Ok::<Seq<TokenView>, Error>(all.subrange(20, 37)));
    lemma_tip_behavior_token_19();
    assert(seq![all[19]] + all.subrange(20, 37) =~= all.subrange(19, 37));
    assert(lex_from(t, 141) == Ok::<Seq<TokenView>, Error>(all.subrange(19, 37)));
    lemma_tip_behavior_token_18();
    assert(seq![all[18]] + all.subrange(19, 37) =~= all.subrange(18, 37));
    assert(lex_from(t, 140) == Ok::<Seq<TokenView>, Error>(all.subrange(18, 37)));
    lemma_tip_behavior_token_17();
    assert(seq![all[17]] + all.subrange(18, 37) =~= all.subrange(17, 37));
    assert(lex_from(t, 124) == Ok::<Seq<TokenView>, Error>(all.subrange(17, 37)));
    lemma_tip_behavior_token_16();
    assert(seq![all[16]] + all.subrange(17, 37) =~= all.subrange(16, 37));
    assert(lex_from(t, 123) == Ok::<Seq<TokenView>, Error>(all.subrange(16, 37)));
    lemma_tip_behavior_token_15();
    assert(seq![all[15]] + all.subrange(16, 37) =~= all.subrange(15, 37));
    assert(lex_from(t, 108) == Ok::<Seq<TokenView>, Error>(all.subrange(15, 37)));
    lemma_tip_behavior_token_14();
    assert(seq![all[14]] + all.subrange(15, 37) =~= all.subrange(14, 37));
    assert(lex_from(t, 105) == Ok::<Seq<TokenView>, Error>(all.subrange(14, 37)));
    lemma_tip_behavior_token_13();
    assert(seq![all[13]] + all.subrange(14, 37) =~= all.subrange(13, 37));
    assert(lex_from(t, 104) == Ok::<Seq<TokenView>, Error>(all.subrange(13, 37)));
    lemma_tip_behavior_token_12();
    assert(seq![all[12]] + all.subrange(13, 37) =~= all.subrange(12, 37));
    assert(lex_from(t, 94) == Ok::<Seq<TokenView>, Error>(all.subrange(12, 37)));
    lemma_tip_behavior_token_11();
    assert(seq![all[11]] + all.subrange(12, 37) =~= all.subrange(11, 37));
    assert(lex_from(t, 93) == Ok::<Seq<TokenView>, Error>(all.subrange(11, 37)));
    lemma_tip_behavior_token_10();
    assert(seq![all[10]] + all.subrange(11, 37) =~= all.subrange(10, 37));
    assert(lex_from(t, 77) == Ok::<Seq<TokenView>, Error>(all.subrange(10, 37)));
    lemma_tip_behavior_token_9();
    assert(seq![all[9]] + all.subrange(10, 37) =~= all.subrange(9, 37));
    assert(lex_from(t, 76) == Ok::<Seq<TokenView>, Error>(all.subrange(9, 37)));
    lemma_tip_behavior_token_8();
    assert(seq![all[8]] + all.subrange(9, 37) =~= all.subrange(8, 37));
    assert(lex_from(t, 65) == Ok::<Seq<TokenView>, Error>(all.subrange(8, 37)));
    lemma_tip_behavior_token_7();
    assert(seq![all[7]] + all.subrange(8, 37) =~= all.subrange(7, 37));
    assert(lex_from(t, 62) == Ok::<Seq<TokenView>, Error>(all.subrange(7, 37)));
    lemma_tip_behavior_token_6();
    assert(seq![all[6]] + all.subrange(7, 37) =~= all.subrange(6, 37));
    assert(lex_from(t, 61) == Ok::<Seq<TokenView>, Error>(all.subrange(6, 37)));
    lemma_tip_behavior_token_5();
    assert(seq![all[5]] + all.subrange(6, 37) =~= all.subrange(5, 37));
    assert(lex_from(t, 60) == Ok::<Seq<TokenView>, Error>(all.subrange(5, 37)));
    lemma_tip_behavior_token_4();
    assert(seq![all[4]] + all.subrange(5, 37) =~= all.subrange(4, 37));
    assert(lex_from(t, 59) == Ok::<Seq<TokenView>, Error>(all.subrange(4, 37)));
    lemma_tip_behavior_token_3();
    assert(seq![all[3]] + all.subrange(4, 37) =~= all.subrange(3, 37));
    assert(lex_from(t, 41) == Ok::<Seq<TokenView>, Error>(all.subrange(3, 37)));
    lemma_tip_behavior_token_2();
    assert(seq![all[2]] + all.subrange(3, 37) =~= all.subrange(2, 37));
    assert(lex_from(t, 40) == Ok::<Seq<TokenView>, Error>(all.subrange(2, 37)));
    lemma_tip_behavior_token_1();
    assert(seq![all[1]] + all.subrange(2, 37) =~= all.subrange(1, 37));
    assert(lex_from(t, 15) == Ok::<Seq<TokenView>, Error>(all.subrange(1, 37)));
    lemma_tip_behavior_token_0();
    assert(seq![all[0]] + all.subrange(1, 37) =~= all.subrange(0, 37));
    assert(lex_from(t, 0) == Ok::<Seq<TokenView>, Error>(all.subrange(0, 37)));
    assert(all.subrange(0, 37) =~= all);
}

/// How the words of the text compare with the words of the grammar.
proof fn lemma_tip_behavior_words()
    ensures
        same_word("SELECT"@, "select"@),
        !same_word("SELECT"@, "from"@),
        !same_word("SELECT"@, "group"@),
        !same_word("SELECT"@, "by"@),
        !same_word("SELECT"@, "order"@),
        !same_word("SELECT"@, "as"@),
        !same_word("SELECT"@, "asc"@),
        !same_word("SELECT"@, "desc"@),
        !reserved("payment_type"@),
        same_word("COUNT"@, "count"@),
        !same_word("AS"@, "select"@),
        !same_word("AS"@, "from"@),
        !same_word("AS"@, "group"@),
        !same_word("AS"@, "by"@),
        !same_word("AS"@, "order"@),
        same_word("AS"@, "as"@),
        !same_word("AS"@, "asc"@),
        !same_word("AS"@, "desc"@),
        !reserved("trip_count"@),
        !same_word("AVG"@, "count"@),
        !same_word("AVG"@, "sum"@),
        same_word("AVG"@, "avg"@),
        !reserved("tip_amount"@),
        !reserved("avg_tip_amount"@),
        !same_word("SUM"@, "count"@),
        same_word("SUM"@, "sum"@),
        !reserved("total_amount"@),
        !reserved("tip_rate"@),
        !same_word("FROM"@, "select"@),
        same_word("FROM"@, "from"@),
        !same_word("FROM"@, "group"@),
        !same_word("FROM"@, "by"@),
        !same_word("FROM"@, "order"@),
        !same_word("FROM"@, "as"@),
        !same_word("FROM"@, "asc"@),
        !same_word("FROM"@, "desc"@),
        !reserved("yellow"@),
        !same_word("GROUP"@, "select"@),
        !same_word("GROUP"@, "from"@),
        same_word("GROUP"@, "group"@),
        !same_word("GROUP"@, "by"@),
        !same_word("GROUP"@, "order"@),
        !same_word("GROUP"@, "as"@),
        !same_word("GROUP"@, "asc"@),
        !same_word("GROUP"@, "desc"@),
        !same_word("BY"@, "select"@),
        !same_word("BY"@, "from"@),
        !same_word("BY"@, "group"@),
        same_word("BY"@, "by"@),
        !same_word("BY"@, "order"@),
        !same_word("BY"@, "as"@),
        !same_word("BY"@, "asc"@),
        !same_word("BY"@, "desc"@),
        !same_word("ORDER"@, "select"@),
        !same_word("ORDER"@, "from"@),
        !same_word("ORDER"@, "group"@),
        !same_word("ORDER"@, "by"@),
        same_word("ORDER"@, "order"@),
        !same_word("ORDER"@, "as"@),
        !same_word("ORDER"@, "asc"@),
        !same_word("ORDER"@, "desc"@),
        !same_word("DESC"@, "select"@),
        !same_word("DESC"@, "from"@),
        !same_word("DESC"@, "group"@),
        !same_word("DESC"@, "by"@),
        !same_word("DESC"@, "order"@),
        !same_word("DESC"@, "as"@),
        !same_word("DESC"@, "asc"@),
        same_word("DESC"@, "desc"@),
{
    reveal_strlit("AS");
    reveal_strlit("AVG");
    reveal_strlit("BY");
    reveal_strlit("COUNT");
    reveal_strlit("DESC");
    reveal_strlit("FROM");
    reveal_strlit("GROUP");
    reveal_strlit("ORDER");
    reveal_strlit("SELECT");
    reveal_strlit("SUM");
    reveal_strlit("as");
    reveal_strlit("asc");
    reveal_strlit("avg");
    reveal_strlit("avg_tip_amount");
    reveal_strlit("by");
    reveal_strlit("count");
    reveal_strlit("desc");
    reveal_strlit("from");
    reveal_strlit("group");
    reveal_strlit("order");
    reveal_strlit("payment_type");
    reveal_strlit("select");
    reveal_strlit("sum");
    reveal_strlit("tip_amount");
    reveal_strlit("tip_rate");
    reveal_strlit("total_amount");
    reveal_strlit("trip_count");
    reveal_strlit("yellow");
    assert(letter_code("AS"@[0]) != letter_code("by"@[0]));
    assert(letter_code("AVG"@[0]) != letter_code("sum"@[0]));
    assert(letter_code("FROM"@[0]) != letter_code("desc"@[0]));
    assert(letter_code("yellow"@[0]) != letter_code("select"@[0]));
    assert(letter_code("GROUP"@[0]) != letter_code("order"@[0]));
    assert(letter_code("BY"@[0]) != letter_code("as"@[0]));
    assert(letter_code("ORDER"@[0]) != letter_code("group"@[0]));
    assert(letter_code("DESC"@[0]) != letter_code("from"@[0]));
}

/// The query that the text of tip behavior by payment type spells.
pub open spec fn tip_behavior_query() -> QueryView {
    QueryView {
        items: seq![
            ItemView { term: TermView::Column("payment_type"@), second: None, alias: None },
            ItemView { term: TermView::CountRows, second: None, alias: Some("trip_count"@) },
            ItemView {
                term: TermView::Avg("tip_amount"@),
                second: None,
                alias: Some("avg_tip_amount"@),
            },
            ItemView {
                term: TermView::Sum("tip_amount"@),
                second: Some((Op::Div, TermView::Sum("total_amount"@))),
                alias: Some("tip_rate"@),
            },
        ],
        table: "yellow"@,
        group_by: seq![ReferenceView::Ordinal(1)],
        order_by: Some((ReferenceView::Name("trip_count"@), false)),
    }
}


proof fn lemma_tip_behavior_item_0()
    ensures
        parse_item(tip_behavior_tokens(), 1) == Ok::<(ItemView, int), Error>(
            (tip_behavior_query().items[0], 2),
        ),
{
    lemma_tip_behavior_words();
    assert(tip_behavior_tokens().len() == 37);
}

proof fn lemma_tip_behavior_item_1()
    ensures
        parse_item(tip_behavior_tokens(), 3) == Ok::<(ItemView, int), Error>(
            (tip_behavior_query().items[1], 9),
        ),
{
    lemma_tip_behavior_words();
    assert(tip_behavior_tokens().len() == 37);
}

proof fn lemma_tip_behavior_item_2()
    ensures
        parse_item(tip_behavior_tokens(), 10) == Ok::<(ItemView, int), Error>(
            (tip_behavior_query().items[2], 16),
        ),
{
    lemma_tip_behavior_words();
    assert(tip_behavior_tokens().len() == 37);
}

proof fn lemma_tip_behavior_item_3()
    ensures
        parse_item(tip_behavior_tokens(), 17) == Ok::<(ItemView, int), Error>(
            (tip_behavior_query().items[3], 28),
        ),
{
    lemma_tip_behavior_words();
    assert(tip_behavior_tokens().len() == 37);
}

/// The tokens of the text are read as its query.
pub proof fn lemma_tip_behavior_parsed()
    ensures
        parse_tokens(tip_behavior_tokens()) == Ok::<QueryView, Error>(tip_behavior_query()),
{
    let tokens = tip_behavior_tokens();
    let q = tip_behavior_query();
    lemma_tip_behavior_words();
    assert(tokens.len() == 37);
    lemma_tip_behavior_item_0();
    lemma_tip_behavior_item_1();
    lemma_tip_behavior_item_2();
    lemma_tip_behavior_item_3();
    let none = Seq::<ItemView>::empty();
    assert(none.push(q.items[0]).push(q.items[1]).push(q.items[2]).push(q.items[3]) =~= q.items);
    assert(parse_items(tokens, 17, none.push(q.items[0]).push(q.items[1]).push(q.items[2])) == Ok::<(Seq<ItemView>, int), Error>((q.items, 28)));
    assert(parse_items(tokens, 10, none.push(q.items[0]).push(q.items[1])) == Ok::<(Seq<ItemView>, int), Error>((q.items, 28)));
    assert(parse_items(tokens, 3, none.push(q.items[0])) == Ok::<(Seq<ItemView>, int), Error>((q.items, 28)));
    assert(parse_items(tokens, 1, none) == Ok::<(Seq<ItemView>, int), Error>((q.items, 28)));
    assert(Seq::<ReferenceView>::empty().push(q.group_by[0]) =~= q.group_by);
    assert(parse_references(tokens, 32, Seq::empty()) == Ok::<(Seq<ReferenceView>, int), Error>(
        (q.group_by, 33),
    ));
    assert(parse_group_by(tokens, 30) == Ok::<(Seq<ReferenceView>, int), Error>((q.group_by, 33)));
    assert(parse_order_by(tokens, 33) == Ok::<(Option<(ReferenceView, bool)>, int), Error>(
        (q.order_by, 37),
    ));
    assert(parse_tail(tokens, 28, q.items) == Ok::<QueryView, Error>(q));
}

proof fn lemma_tip_behavior_default_names()
    ensures
        "sum_"@ + "tip_amount"@ == "sum_tip_amount"@,
        "sum_"@ + "total_amount"@ == "sum_total_amount"@,
{
    reveal_strlit("sum_");
    reveal_strlit("tip_amount");
    reveal_strlit("total_amount");
    reveal_strlit("sum_tip_amount");
    reveal_strlit("sum_total_amount");
    assert("sum_"@ + "tip_amount"@ =~= "sum_tip_amount"@);
    assert("sum_"@ + "total_amount"@ =~= "sum_total_amount"@);
}

proof fn lemma_tip_behavior_aggregates()
    ensures
        aggregates_of(tip_behavior_query().items) == tip_behavior_plan().aggregates,
{
    let items = tip_behavior_query().items;
    let wanted = tip_behavior_plan().aggregates;
    lemma_tip_behavior_default_names();
    let i3 = items.drop_last();
    let i2 = i3.drop_last();
    let i1 = i2.drop_last();
    let i0 = i1.drop_last();
    assert(i0.len() == 0);
    assert(aggregates_of(i0) =~= Seq::empty());
    assert(aggregates_of(i1) =~= Seq::empty());
    assert(aggregates_of(i2) =~= seq![wanted[0]]);
    assert(aggregates_of(i3) =~= seq![wanted[0], wanted[1]]);
    assert(aggregates_of_item(items[3]) =~= seq![wanted[2], wanted[3]]);
    assert(aggregates_of(items) =~= wanted);
}

/// The query of tip behavior by payment type has the plan that the builder
/// yields.
pub proof fn lemma_tip_behavior_planned()
    ensures
        plan_of(tip_behavior_query()) == Ok::<PlanView, Error>(tip_behavior_plan()),
{
    let q = tip_behavior_query();
    let plan = tip_behavior_plan();
    lemma_tip_behavior_names();
    lemma_tip_behavior_default_names();
    let names = stage_names(plan.group_keys, plan.aggregates);
    let shown = plan.output_names();
    assert(supported_items(q.items));
    let outcomes = Seq::new(q.group_by.len(), |i: int| group_key_of(q.items, q.group_by[i]));
    assert(outcomes[0] == Ok::<GroupKeyView, Error>(plan.group_keys[0]));
    assert(outcomes.drop_last() =~= Seq::empty());
    reveal_with_fuel(try_all, 2);
    assert(Seq::<GroupKeyView>::empty().push(plan.group_keys[0]) =~= plan.group_keys);
    assert(group_keys_of(q.items, q.group_by) == Ok::<Seq<GroupKeyView>, Error>(plan.group_keys));
    lemma_index_of_some(key_aliases(plan.group_keys), "payment_type"@, 0);
    assert(keys_cover_items(q.items, plan.group_keys));
    lemma_tip_behavior_aggregates();
    let base = PlanView::aggregated(q.table, plan.group_keys, plan.aggregates)->Ok_0;
    let ps = projections_of(q.items);
    assert(ps =~= plan.projections->Some_0);
    assert(q.items[3].second is Some);
    lemma_index_of_some(names, "payment_type"@, 0);
    lemma_index_of_some(names, "trip_count"@, 1);
    lemma_index_of_some(names, "avg_tip_amount"@, 2);
    lemma_index_of_some(names, "sum_tip_amount"@, 3);
    lemma_index_of_some(names, "sum_total_amount"@, 4);
    reveal_with_fuel(refs_known, 2);
    assert(projection_aliases(ps) =~= shown);
    assert(base.accepts_projections(ps));
    let projected = PlanView { projections: Some(ps), ..base };
    assert(shaped(base, q.items) == Ok::<PlanView, Error>(projected));
    lemma_index_of_some(shown, "trip_count"@, 1);
    assert(seq![plan.sort_keys[0]] + Seq::<SortKeyView>::empty() =~= plan.sort_keys);
    assert(seq![plan.sort_keys[0]] =~= plan.sort_keys);
    assert(arranged(projected, q.items, q.order_by) == Ok::<PlanView, Error>(plan));
}


/// Tip behavior by payment type: the text is interpreted as the plan of the builder, and so
/// both surfaces give the same outcome on every table, the same error or the
/// same result, cell for cell and in the same row order.
pub proof fn tip_behavior_surfaces_agree(name: Seq<char>, schema: Seq<ColumnView>, rows: Seq<Seq<Value>>)
    ensures
        interpret(tip_behavior_text()) == Ok::<PlanView, Error>(tip_behavior_plan()),
        outcome(interpret(tip_behavior_text())->Ok_0, name, schema, rows) == outcome(
            tip_behavior_plan(),
            name,
            schema,
            rows,
        ),
{
    lemma_tip_behavior_lexed();
    lemma_tip_behavior_parsed();
    lemma_tip_behavior_planned();
}

/// Reads the plan of the aggregation from its text. Reading cannot fail, and
/// the plan is the one that the builder yields.
pub fn tip_behavior_from_text() -> (plan: Plan)
    ensures
        plan@ == tip_behavior_plan(),
        plan@.wf(),
{
    proof {
        tip_behavior_surfaces_agree(Seq::empty(), Seq::empty(), Seq::empty());
    }
    parse(tip_behavior_sql()).unwrap()
}


} // verus!
